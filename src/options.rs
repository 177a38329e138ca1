//! The options of each command, as the command line gives them.
use vstd::prelude::*;

verus! {

/// Options shared by all commands.
#[derive(Debug)]
pub struct GpioOptions {
    /// Additional configuration files, from the lowest priority to the highest.
    pub configs: Vec<String>,
}

#[derive(Debug)]
pub struct GpioReadOptions<'a> {
    pub gpio_opts: GpioOptions,
    pub pin: &'a str,
}

#[derive(Debug)]
pub struct GpioWriteOptions<'a> {
    pub gpio_opts: GpioOptions,
    pub pin: &'a str,
    pub value: u8,
}

#[derive(Debug)]
pub struct GpioPollOptions<'a> {
    pub gpio_opts: GpioOptions,
    /// Milliseconds to wait for an edge; -1 waits forever.
    pub timeout: Option<isize>,
    pub edge: &'a str,
    pub pin: &'a str,
}

#[derive(Debug)]
pub struct GpioExportOptions<'a> {
    pub gpio_opts: GpioOptions,
    pub symlink_root: Option<&'a str>,
    pub pin: &'a str,
}

#[derive(Debug)]
pub struct GpioExportAllOptions<'a> {
    pub gpio_opts: GpioOptions,
    pub symlink_root: Option<&'a str>,
}

#[derive(Debug)]
pub struct GpioUnexportOptions<'a> {
    pub gpio_opts: GpioOptions,
    pub symlink_root: Option<&'a str>,
    pub pin: &'a str,
}

#[derive(Debug)]
pub struct GpioUnexportAllOptions<'a> {
    pub gpio_opts: GpioOptions,
    pub symlink_root: Option<&'a str>,
}

#[derive(Debug)]
pub struct GpioStatusOptions<'a> {
    pub gpio_opts: GpioOptions,
    pub pin: Option<&'a str>,
}

} // verus!
