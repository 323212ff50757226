//! Line-oriented text-stream formatting in the manner of `cat`, with the
//! classification of command-line tokens that its option parser rests on.

pub mod cat;
pub mod cliopt;
pub mod echo;
pub mod line;
