//! Reading the EEPROM.
pub mod sii_reg;
