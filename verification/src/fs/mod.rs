pub mod fat;
