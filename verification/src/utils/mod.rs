pub mod get_object_value;
