//! One module per instruction family. Each handler reads the machine and
//! returns the update that the instruction asks for, leaving the machine as
//! it is.
pub mod add;
pub mod add_carry;
pub mod and;
pub mod call;
pub mod compare;
pub mod compare_carry;
pub mod fetch;
pub mod jump;
pub mod load;
pub mod or;
pub mod ret;
pub mod rotate_left;
pub mod rotate_right;
pub mod shift_left;
pub mod shift_right;
pub mod store;
pub mod subtract;
pub mod subtract_carry;
pub mod test;
pub mod test_carry;
pub mod xor;
