//! The settings of a node, and their rendering as text.

use vstd::prelude::*;

verus! {

/// `String::push_str` appends the given text to the end of the string.
pub assume_specification[ String::push_str ](text: &mut String, tail: &str)
    ensures
        final(text)@ == old(text)@ + tail@,
;

/// `String::push` appends the given character to the end of the string.
pub assume_specification[ String::push ](text: &mut String, c: char)
    ensures
        final(text)@ == old(text)@.push(c),
;

/// The character of a decimal digit.
pub open spec fn digit_char(digit: int) -> char {
    if digit == 0 {
        '0'
    } else if digit == 1 {
        '1'
    } else if digit == 2 {
        '2'
    } else if digit == 3 {
        '3'
    } else if digit == 4 {
        '4'
    } else if digit == 5 {
        '5'
    } else if digit == 6 {
        '6'
    } else if digit == 7 {
        '7'
    } else if digit == 8 {
        '8'
    } else {
        '9'
    }
}

/// A number in decimal notation, without leading zeros.
pub open spec fn decimal(n: nat) -> Seq<char>
    decreases n,
{
    if n < 10 {
        seq![digit_char(n as int)]
    } else {
        decimal(n / 10).push(digit_char((n % 10) as int))
    }
}

fn digit(value: u64) -> (c: char)
    requires
        value < 10,
    ensures
        c == digit_char(value as int),
{
    if value == 0 {
        '0'
    } else if value == 1 {
        '1'
    } else if value == 2 {
        '2'
    } else if value == 3 {
        '3'
    } else if value == 4 {
        '4'
    } else if value == 5 {
        '5'
    } else if value == 6 {
        '6'
    } else if value == 7 {
        '7'
    } else if value == 8 {
        '8'
    } else {
        '9'
    }
}

/// Appends a number in decimal notation.
fn push_decimal(text: &mut String, n: u64)
    ensures
        final(text)@ == old(text)@ + decimal(n as nat),
    decreases n,
{
    if n >= 10 {
        push_decimal(text, n / 10);
    }
    text.push(digit(n % 10));
    proof {
        if n >= 10 {
            assert(old(text)@ + decimal(n as nat) =~= (old(text)@ + decimal((n / 10) as nat)).push(
                digit_char((n % 10) as int),
            ));
        } else {
            assert(old(text)@ + decimal(n as nat) =~= old(text)@.push(digit_char(n as int)));
        }
    }
}

/// How to reach and poll the elevator hardware.
#[derive(Debug)]
pub struct HardwareConfig {
    pub num_floors: u8,
    pub driver_address: String,
    pub driver_port: u32,
    pub driver_channel_poll_timeout_milliseconds: u64,
}

/// Where the node listens for its peers.
#[derive(Debug)]
pub struct NetworkConfig {
    pub address: String,
    pub port: u32,
}

/// The settings of a node.
#[derive(Debug)]
pub struct Config {
    pub hardware: HardwareConfig,
    pub network: NetworkConfig,
}

impl HardwareConfig {
    /// The hardware settings as text: a heading, then one line each for the
    /// floors, the driver's address and port, and the poll timeout.
    pub open spec fn text(&self) -> Seq<char> {
        "Hardware Config:\n  Floors: "@ + decimal(self.num_floors as nat) + "\n  Driver: "@
            + self.driver_address@ + ":"@ + decimal(self.driver_port as nat)
            + "\n  Poll Timeout: "@ + decimal(
            self.driver_channel_poll_timeout_milliseconds as nat,
        ) + "ms"@
    }

    /// Renders the hardware settings as text.
    pub fn describe(&self) -> (text: String)
        ensures
            text@ == self.text(),
    {
        let mut text = String::new();
        text.push_str("Hardware Config:\n  Floors: ");
        push_decimal(&mut text, self.num_floors as u64);
        text.push_str("\n  Driver: ");
        text.push_str(self.driver_address.as_str());
        text.push_str(":");
        push_decimal(&mut text, self.driver_port as u64);
        text.push_str("\n  Poll Timeout: ");
        push_decimal(&mut text, self.driver_channel_poll_timeout_milliseconds);
        text.push_str("ms");
        assert(text@ =~= self.text());
        text
    }
}

impl NetworkConfig {
    /// The network settings as text: a heading, then the address and port.
    pub open spec fn text(&self) -> Seq<char> {
        "Network Config:\n  Address: "@ + self.address@ + ":"@ + decimal(self.port as nat)
    }

    /// Renders the network settings as text.
    pub fn describe(&self) -> (text: String)
        ensures
            text@ == self.text(),
    {
        let mut text = String::new();
        text.push_str("Network Config:\n  Address: ");
        text.push_str(self.address.as_str());
        text.push_str(":");
        push_decimal(&mut text, self.port as u64);
        assert(text@ =~= self.text());
        text
    }
}

impl Config {
    /// The settings as text: a heading, the hardware settings and the
    /// network settings, each on lines of their own.
    pub open spec fn text(&self) -> Seq<char> {
        "Config:\n"@ + self.hardware.text() + "\n"@ + self.network.text()
    }

    /// Renders the settings as text.
    pub fn describe(&self) -> (text: String)
        ensures
            text@ == self.text(),
    {
        let mut text = String::new();
        text.push_str("Config:\n");
        let hardware = self.hardware.describe();
        text.push_str(hardware.as_str());
        text.push_str("\n");
        let network = self.network.describe();
        text.push_str(network.as_str());
        assert(text@ =~= self.text());
        text
    }
}

} // verus!
