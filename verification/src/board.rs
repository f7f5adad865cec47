//! The fixed connections and display properties of the EGBO ESP32-C3 OLED board.

use vstd::prelude::*;

use crate::text::{
    all_digits, decimal, decimals_stand_for_their_number, numeral_value, push_decimal,
};

verus! {

/// Display controller reported by the product listing.
pub const OLED_CONTROLLER: &'static str = "SSD1315";

/// GPIO connected to the OLED's I²C data line.
pub const OLED_SDA_GPIO: u8 = 5;

/// GPIO connected to the OLED's I²C clock line.
pub const OLED_SCL_GPIO: u8 = 6;

/// Presumed 7-bit I²C address used by the onboard display.
pub const OLED_I2C_ADDRESS: u8 = 0x3c;

/// Visible OLED width in pixels.
pub const OLED_WIDTH: u32 = 72;

/// Visible OLED height in pixels.
pub const OLED_HEIGHT: u32 = 40;

/// GPIO receiving data from the FE-URT-2 TXD pin.
pub const SERVO_UART_RX_GPIO: u8 = 20;

/// GPIO transmitting data to the FE-URT-2 RXD pin.
pub const SERVO_UART_TX_GPIO: u8 = 21;

/// Fixed Feetech STS bus baud rate.
pub const SERVO_UART_BAUD: u32 = 1_000_000;

/// Raw TCP port exposed to virtual-COM software.
pub const BRIDGE_TCP_PORT: u16 = 3333;

/// How many characters fit into a line of the display, in the six-pixel font that it uses.
pub const OLED_COLUMNS: usize = 12;

/// One of the two lines of an address on the display: two numbers with a dot between them.
pub open spec fn address_line(left: u8, right: u8) -> Seq<char> {
    decimal(left as nat) + "."@ + decimal(right as nat)
}

/// The lines that show an IPv4 address on the display, which is too narrow for one line.
pub fn show_ip_address(octets: [u8; 4]) -> (lines: [String; 3])
    ensures
        lines@[0]@ == "IP ADDRESS"@,
        lines@[1]@ == address_line(octets@[0], octets@[1]) + "."@,
        lines@[2]@ == address_line(octets@[2], octets@[3]),
{
    let title = "IP ADDRESS".to_owned();
    let mut first = String::new();
    push_decimal(&mut first, octets[0] as u64);
    first.append(".");
    push_decimal(&mut first, octets[1] as u64);
    first.append(".");
    let mut second = String::new();
    push_decimal(&mut second, octets[2] as u64);
    second.append(".");
    push_decimal(&mut second, octets[3] as u64);
    proof {
        assert(first@ =~= address_line(octets@[0], octets@[1]) + "."@);
        assert(second@ =~= address_line(octets@[2], octets@[3]));
    }
    [title, first, second]
}

/// Every line of an address fits the display.
pub proof fn addresses_fit_the_display(left: u8, right: u8)
    ensures
        (address_line(left, right) + "."@).len() <= OLED_COLUMNS,
{
    reveal_strlit(".");
    reveal_with_fuel(decimal, 4);
}

/// A line of an address shows the digits of the two numbers with a dot between them.
pub proof fn address_lines_show_two_numbers(left: u8, right: u8) -> (dot: int)
    ensures
        ({
            let line = address_line(left, right);
            &&& 0 <= dot < line.len() && line[dot] == '.'
            &&& all_digits(line.take(dot)) && numeral_value(line.take(dot)) == left
            &&& all_digits(line.skip(dot + 1)) && numeral_value(line.skip(dot + 1)) == right
        }),
{
    reveal_strlit(".");
    decimals_stand_for_their_number(left as nat);
    decimals_stand_for_their_number(right as nat);
    let line = address_line(left, right);
    let dot = decimal(left as nat).len() as int;
    assert(line.take(dot) =~= decimal(left as nat));
    assert(line.skip(dot + 1) =~= decimal(right as nat));
    dot
}

} // verus!
