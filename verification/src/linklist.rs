pub mod list1;
