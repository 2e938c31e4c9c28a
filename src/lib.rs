//! A Game Boy (DMG) machine model: the memory bus with its address decoding
//! and bank-switched cartridges, the video unit with its scanline renderer and
//! mode machine, the four audio channels and their mixer, the divider and
//! timer, and the interrupt registers through which the devices signal the CPU.
pub mod bits;
pub mod interrupt;
pub mod cartridge;
pub mod ram;
pub mod timer;
pub mod tiles;
pub mod palette;
pub mod joypad;
pub mod video;
pub mod square1;
pub mod wave;
pub mod noise;
pub mod apu;
pub mod bus;
pub mod savefile;
