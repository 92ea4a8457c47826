pub mod private;
