pub mod apex;
pub mod bf2042;
pub mod cursor;
pub mod decode;
pub mod error;
pub mod ooa;
pub mod pe;
pub mod skate_cpt;
pub mod synth;
pub mod titanfall2;
pub mod util;
