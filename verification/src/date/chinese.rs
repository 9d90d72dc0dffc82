pub mod animal;
pub mod constellation;
pub mod gan;
pub mod gan_zhi;
pub mod lunar;
pub mod solar;
pub mod solarterm;
pub mod utils;
pub mod zhi;
