//! EEPROM access: the header registers are those of the reader.
pub use super::sii_reader::sii_reg;
