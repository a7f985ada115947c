use vstd::prelude::*;
use vstd::string::{StringExecFns, StringSliceAdditionalSpecFns};
use crate::connection::{Connection, ConnectionView};
use crate::bus::CursorView;
use crate::frame::FrameView;
use crate::rp1210_parsing::{Rp1210Device, Rp1210Product};

verus! {

/// Where to connect: adapter driver, device, connection string and the
/// address to send from.
#[derive(Debug)]
pub struct ConnectionDescriptor {
    pub adapter: String,
    pub device: i16,
    pub connection_string: String,
    pub source_address: u8,
    pub verbose: bool,
    pub app_packetize: bool,
}

/// The program's arguments.
#[derive(Debug)]
pub struct Cli {
    pub connection: ConnectionDescriptor,
}

impl ConnectionDescriptor {
    /// The connection state for this descriptor: no cursors yet, worker
    /// stopped, sending from the descriptor's address.
    pub fn connect(&self) -> (r: Connection)
        ensures
            r@ == (ConnectionView {
                cursors: Seq::<CursorView<FrameView>>::empty(),
                running: false,
                source_address: self.source_address,
            }),
    {
        Connection::new(self.source_address)
    }
}

/// Why a hexadecimal byte did not parse.
#[derive(Debug, PartialEq, Eq, Structural)]
pub enum HexError {
    Empty,
    InvalidDigit,
    Overflow,
}

pub open spec fn hex_digit(c: u8) -> Option<nat> {
    if 0x30 <= c <= 0x39 {
        Some((c - 0x30) as nat)
    } else if 0x41 <= c <= 0x46 {
        Some((c - 0x41 + 10) as nat)
    } else if 0x61 <= c <= 0x66 {
        Some((c - 0x61 + 10) as nat)
    } else {
        None
    }
}

/// Reads hexadecimal digits left to right onto `acc`, stopping at the first
/// digit that is not one or that takes the value past 255.
pub open spec fn hex_scan(s: Seq<u8>, acc: nat) -> Result<u8, HexError>
    decreases s.len(),
{
    if s.len() == 0 {
        Ok(acc as u8)
    } else {
        match hex_digit(s[0]) {
            None => Err(HexError::InvalidDigit),
            Some(d) => if acc * 16 + d > 255 {
                Err(HexError::Overflow)
            } else {
                hex_scan(s.drop_first(), acc * 16 + d)
            },
        }
    }
}

/// A byte written in hexadecimal, with an optional leading `+`.
pub open spec fn hex8_spec(s: Seq<u8>) -> Result<u8, HexError> {
    if s.len() == 0 {
        Err(HexError::Empty)
    } else if s[0] == 0x2B {
        if s.len() == 1 {
            Err(HexError::InvalidDigit)
        } else {
            hex_scan(s.drop_first(), 0)
        }
    } else {
        hex_scan(s, 0)
    }
}

fn hex_digit_value(c: u8) -> (r: Option<u8>)
    ensures
        match hex_digit(c) {
            Some(d) => r == Some(d as u8),
            None => r is None,
        },
{
    if 0x30 <= c && c <= 0x39 {
        Some(c - 0x30)
    } else if 0x41 <= c && c <= 0x46 {
        Some(c - 0x41 + 10)
    } else if 0x61 <= c && c <= 0x66 {
        Some(c - 0x61 + 10)
    } else {
        None
    }
}

/// Parses a byte written in hexadecimal, as `u8::from_str_radix(s, 16)` does.
pub fn hex8(s: &str) -> (r: Result<u8, HexError>)
    ensures
        r == hex8_spec(s.spec_bytes()),
{
    let b = s.as_bytes();
    let n = b.len();
    if n == 0 {
        return Err(HexError::Empty);
    }
    let mut i: usize = 0;
    if b[0] == 0x2B {
        if n == 1 {
            return Err(HexError::InvalidDigit);
        }
        i = 1;
        assert(b@.subrange(1, n as int) =~= b@.drop_first());
    } else {
        assert(b@.subrange(0, n as int) =~= b@);
    }
    let mut acc: u32 = 0;
    while i < n
        invariant
            n == b@.len(),
            b@ == s.spec_bytes(),
            1 <= n,
            i <= n,
            acc <= 255,
            hex8_spec(b@) == hex_scan(b@.subrange(i as int, n as int), acc as nat),
        decreases n - i,
    {
        let ghost rest = b@.subrange(i as int, n as int);
        assert(rest.drop_first() =~= b@.subrange(i + 1, n as int));
        assert(rest[0] == b@[i as int]);
        match hex_digit_value(b[i]) {
            None => {
                return Err(HexError::InvalidDigit);
            },
            Some(d) => {
                let v = acc * 16 + d as u32;
                if v > 255 {
                    return Err(HexError::Overflow);
                }
                acc = v;
            },
        }
        i = i + 1;
    }
    Ok(acc as u8)
}

/// The character of decimal digit `d`.
pub open spec fn digit_char(d: nat) -> char {
    if d == 0 {
        '0'
    } else if d == 1 {
        '1'
    } else if d == 2 {
        '2'
    } else if d == 3 {
        '3'
    } else if d == 4 {
        '4'
    } else if d == 5 {
        '5'
    } else if d == 6 {
        '6'
    } else if d == 7 {
        '7'
    } else if d == 8 {
        '8'
    } else {
        '9'
    }
}

/// `n` written in decimal.
pub open spec fn decimal(n: nat) -> Seq<char>
    decreases n,
{
    if n < 10 {
        seq![digit_char(n)]
    } else {
        decimal(n / 10).push(digit_char(n % 10))
    }
}

/// What selects a channel in a connection string.
pub open spec fn channel_suffix(channel: Option<u8>) -> Seq<char> {
    match channel {
        Some(c) => seq![';', 'C', 'h', 'a', 'n', 'n', 'e', 'l', '='] + decimal(c as nat),
        None => Seq::empty(),
    }
}

fn digit_str(d: u8) -> (r: &'static str)
    requires
        d < 10,
    ensures
        r@ == seq![digit_char(d as nat)],
{
    match d {
        0 => {
            proof {
                reveal_strlit("0");
            }
            "0"
        },
        1 => {
            proof {
                reveal_strlit("1");
            }
            "1"
        },
        2 => {
            proof {
                reveal_strlit("2");
            }
            "2"
        },
        3 => {
            proof {
                reveal_strlit("3");
            }
            "3"
        },
        4 => {
            proof {
                reveal_strlit("4");
            }
            "4"
        },
        5 => {
            proof {
                reveal_strlit("5");
            }
            "5"
        },
        6 => {
            proof {
                reveal_strlit("6");
            }
            "6"
        },
        7 => {
            proof {
                reveal_strlit("7");
            }
            "7"
        },
        8 => {
            proof {
                reveal_strlit("8");
            }
            "8"
        },
        _ => {
            proof {
                reveal_strlit("9");
            }
            "9"
        },
    }
}

/// The connection string that opens `channel` of the adapter, if one is given.
pub fn channel_connection_string(base: &str, channel: Option<u8>) -> (r: String)
    ensures
        r@ == base@ + channel_suffix(channel),
{
    let mut r = base.to_owned();
    match channel {
        None => {
            assert(r@ =~= base@ + channel_suffix(channel));
        },
        Some(c) => {
            proof {
                reveal_strlit(";Channel=");
            }
            r.append(";Channel=");
            let ghost head = r@;
            if c >= 100 {
                r.append(digit_str(c / 100));
                r.append(digit_str((c / 10) % 10));
                r.append(digit_str(c % 10));
                assert(decimal((c / 100) as nat) =~= seq![digit_char((c / 100) as nat)]);
                assert(decimal((c / 10) as nat) =~= decimal((c / 100) as nat).push(digit_char(((c / 10) % 10) as nat)));
                assert(decimal(c as nat) =~= decimal((c / 10) as nat).push(digit_char((c % 10) as nat)));
            } else if c >= 10 {
                r.append(digit_str(c / 10));
                r.append(digit_str(c % 10));
                assert(decimal((c / 10) as nat) =~= seq![digit_char((c / 10) as nat)]);
                assert(decimal(c as nat) =~= decimal((c / 10) as nat).push(digit_char((c % 10) as nat)));
            } else {
                r.append(digit_str(c));
            }
            assert(r@ =~= base@ + channel_suffix(channel));
        },
    }
    r
}

/// One way to connect, offered to the user: a device of an adapter with the
/// default settings.
#[derive(Debug)]
pub struct Rp1210Factory {
    pub id: String,
    pub device: i16,
    pub connection_string: String,
    pub address: u8,
    pub app_packetize: bool,
    pub name: String,
}

impl Rp1210Factory {
    pub fn name(&self) -> (r: String)
        ensures
            r@ == self.name@,
    {
        self.name.clone()
    }

    /// The descriptor that connects to this device.
    pub fn descriptor(&self) -> (r: ConnectionDescriptor)
        ensures
            r.adapter@ == self.id@,
            r.device == self.device,
            r.connection_string@ == self.connection_string@,
            r.source_address == self.address,
            !r.verbose,
            r.app_packetize == self.app_packetize,
    {
        ConnectionDescriptor {
            adapter: self.id.clone(),
            device: self.device,
            connection_string: self.connection_string.clone(),
            source_address: self.address,
            verbose: false,
            app_packetize: self.app_packetize,
        }
    }
}

/// An adapter and the ways to connect to its devices.
#[derive(Debug)]
pub struct DeviceDescriptor {
    pub name: String,
    pub connections: Vec<Rp1210Factory>,
}

/// A protocol family and its adapters.
#[derive(Debug)]
pub struct ProtocolDescriptor {
    pub name: String,
    pub devices: Vec<DeviceDescriptor>,
}

/// The default connection string.
pub open spec fn default_connection_string() -> Seq<char> {
    seq!['J', '1', '9', '3', '9', ':', 'B', 'a', 'u', 'd', '=', 'A', 'u', 't', 'o']
}

/// The default address to send from.
pub const DEFAULT_ADDRESS: u8 = 0xF9;

/// The factory for device `d` of product `p`, with the default settings.
pub open spec fn factory_matches(f: Rp1210Factory, p: Rp1210Product, d: Rp1210Device) -> bool {
    &&& f.id@ == p.id@
    &&& f.device == d.id
    &&& f.connection_string@ == default_connection_string()
    &&& f.address == DEFAULT_ADDRESS
    &&& !f.app_packetize
    &&& f.name@ == d.description@
}

fn factory_for(p: &Rp1210Product, d: &Rp1210Device) -> (r: Rp1210Factory)
    ensures
        factory_matches(r, *p, *d),
{
    let cs = "J1939:Baud=Auto".to_owned();
    proof {
        reveal_strlit("J1939:Baud=Auto");
        assert(cs@ =~= default_connection_string());
    }
    Rp1210Factory {
        id: p.id.clone(),
        device: d.id,
        connection_string: cs,
        address: DEFAULT_ADDRESS,
        app_packetize: false,
        name: d.description.clone(),
    }
}

/// Every device of every product as a way to connect, grouped by product,
/// under the protocol name "RP1210".
pub fn list_all(products: &Vec<Rp1210Product>) -> (r: ProtocolDescriptor)
    ensures
        r.name@ == seq!['R', 'P', '1', '2', '1', '0'],
        r.devices@.len() == products@.len(),
        forall|i: int|
            0 <= i < products@.len() ==> {
                let p = #[trigger] products@[i];
                let dd = r.devices@[i];
                &&& dd.name@ == p.description@
                &&& dd.connections@.len() == p.devices@.len()
                &&& forall|j: int|
                    0 <= j < p.devices@.len() ==> factory_matches(
                        #[trigger] dd.connections@[j],
                        p,
                        p.devices@[j],
                    )
            },
{
    let mut devices: Vec<DeviceDescriptor> = Vec::new();
    let mut i: usize = 0;
    while i < products.len()
        invariant
            i <= products@.len(),
            devices@.len() == i,
            forall|k: int|
                0 <= k < i ==> {
                    let p = #[trigger] products@[k];
                    let dd = devices@[k];
                    &&& dd.name@ == p.description@
                    &&& dd.connections@.len() == p.devices@.len()
                    &&& forall|j: int|
                        0 <= j < p.devices@.len() ==> factory_matches(
                            #[trigger] dd.connections@[j],
                            p,
                            p.devices@[j],
                        )
                },
        decreases products@.len() - i,
    {
        let p = &products[i];
        let mut connections: Vec<Rp1210Factory> = Vec::new();
        let mut j: usize = 0;
        while j < p.devices.len()
            invariant
                j <= p.devices@.len(),
                connections@.len() == j,
                forall|m: int|
                    0 <= m < j ==> factory_matches(#[trigger] connections@[m], *p, p.devices@[m]),
            decreases p.devices@.len() - j,
        {
            let f = factory_for(p, &p.devices[j]);
            connections.push(f);
            j = j + 1;
        }
        devices.push(DeviceDescriptor { name: p.description.clone(), connections });
        i = i + 1;
    }
    let name = "RP1210".to_owned();
    proof {
        reveal_strlit("RP1210");
        assert(name@ =~= seq!['R', 'P', '1', '2', '1', '0']);
    }
    ProtocolDescriptor { name, devices }
}

} // verus!
