//! Description of a vehicle and of the hardware on its buses.
use vstd::prelude::*;

verus! {

#[derive(Debug, Clone)]
pub struct RobotDefinition {
    pub name: String,
    pub port: u16,
}

#[derive(Debug, Clone)]
pub enum CameraTypeDefinition {
    H264,
}

#[derive(Debug, Clone)]
pub struct I2cDefinition {
    pub i2c_bus: u32,
    pub i2c_address: u32,
}

#[derive(Debug, Clone)]
pub struct SpiDefinition {
    pub spi_bus: u32,
    pub spi_cs: u32,
}

#[derive(Debug, Clone)]
pub struct Pca9685Definition {
    pub i2c: I2cDefinition,
    pub enable_gpio: u32,
}

#[derive(Debug, Clone)]
pub struct Ads1115Definition {
    pub i2c: I2cDefinition,
}

#[derive(Debug, Clone)]
pub struct BlueRovPowerSenseDefinition {
    pub adc_name: String,
}

#[derive(Debug, Clone)]
pub struct Icm20602Definition {
    pub spi: SpiDefinition,
}

#[derive(Debug, Clone)]
pub struct Mmc5983Definition {
    pub spi: SpiDefinition,
}

#[derive(Debug, Clone)]
pub struct NeopixelDefinition {
    pub spi: SpiDefinition,
}

#[derive(Debug, Clone)]
pub struct LeakDefinition {
    pub gpio: u32,
    pub active_high: bool,
}

} // verus!
