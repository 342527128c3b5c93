pub mod control;
