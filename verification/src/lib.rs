//! Building blocks for hand-written lexers and recursive-descent parsers over
//! UTF-8 text: a character-level scanning cursor that turns source text into
//! typed, position-tagged tokens, and a token-stream cursor that lets a parser
//! consume that sequence with lookahead and expectation checks.

pub mod chars;
pub mod errors;
pub mod position;
pub mod scanner;
pub mod token;
pub mod token_view;

pub use chars::char_width;
pub use errors::Error;
pub use errors::ParseError;
pub use errors::ParseErrorKind;
pub use errors::TokenizeError;
pub use errors::TokenizeErrorKind;
pub use position::position_of;
pub use position::PositionInfo;
pub use scanner::SimpleTokenizer;
pub use token::Token;
pub use token::Tokens;
pub use token::token_cloned;
pub use token::token_fits;
pub use token_view::TokenView;
