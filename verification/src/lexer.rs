pub mod lex_token;
