use vstd::prelude::*;

use vstd::string::StringExecFns;

verus! {

/// Errors of the Bluetooth transport setup.
#[derive(Clone, Debug)]
pub enum BluetoothError {
    /// No adapters present.
    NoAdaptersPresent,
    /// No peripherals found.
    NoPeripheralsFound,
    /// Characteristic not found.
    CharacteristicNotFound,
    /// A failure of the underlying stack, with its message.
    Btleplug { e: String },
}

/// A GATT service and one characteristic under it, named by their UUID
/// texts.
#[derive(Clone, Debug)]
pub struct ServiceCharacteristic {
    service: String,
    characteristic: String,
}

impl ServiceCharacteristic {
    /// The service UUID text.
    pub closed spec fn spec_service(&self) -> Seq<char> {
        self.service@
    }

    /// The characteristic UUID text.
    pub closed spec fn spec_characteristic(&self) -> Seq<char> {
        self.characteristic@
    }

    /// The pair of a service UUID text and a characteristic UUID text.
    pub fn new(service: String, char_uuid: String) -> (r: Self)
        ensures
            r.spec_service() == service@,
            r.spec_characteristic() == char_uuid@,
    {
        ServiceCharacteristic { service, characteristic: char_uuid }
    }

    /// The service UUID text.
    pub fn service(&self) -> (r: &String)
        ensures
            r@ == self.spec_service(),
    {
        &self.service
    }

    /// The characteristic UUID text.
    pub fn characteristic(&self) -> (r: &String)
        ensures
            r@ == self.spec_characteristic(),
    {
        &self.characteristic
    }
}

/// Which device to reach, and which characteristic carries each direction.
#[derive(Clone, Debug)]
pub struct BluetoothAdapterConfiguration {
    device_mac: String,
    read_characteristic: ServiceCharacteristic,
    write_characteristic: ServiceCharacteristic,
}

impl BluetoothAdapterConfiguration {
    /// The address of the device to reach.
    pub closed spec fn spec_device_mac(&self) -> Seq<char> {
        self.device_mac@
    }

    /// The characteristic read from.
    pub closed spec fn spec_read_characteristic(&self) -> ServiceCharacteristic {
        self.read_characteristic
    }

    /// The characteristic written to.
    pub closed spec fn spec_write_characteristic(&self) -> ServiceCharacteristic {
        self.write_characteristic
    }

    /// A configuration naming the device and the two characteristics.
    pub fn new(
        device_mac: String,
        read_characteristic: ServiceCharacteristic,
        write_characteristic: ServiceCharacteristic,
    ) -> (r: Self)
        ensures
            r.spec_device_mac() == device_mac@,
            r.spec_read_characteristic() == read_characteristic,
            r.spec_write_characteristic() == write_characteristic,
    {
        BluetoothAdapterConfiguration { device_mac, read_characteristic, write_characteristic }
    }

    /// The address of the device to reach.
    pub fn device_mac(&self) -> (r: &String)
        ensures
            r@ == self.spec_device_mac(),
    {
        &self.device_mac
    }

    /// The characteristic read from.
    pub fn read_characteristic(&self) -> (r: &ServiceCharacteristic)
        ensures
            *r == self.spec_read_characteristic(),
    {
        &self.read_characteristic
    }

    /// The characteristic written to.
    pub fn write_characteristic(&self) -> (r: &ServiceCharacteristic)
        ensures
            *r == self.spec_write_characteristic(),
    {
        &self.write_characteristic
    }

    /// Which of the discovered peripherals is the configured device: the
    /// first whose address text equals the configured one, searched anew
    /// after each scan poll until the scan gives up.
    pub fn find_peripheral(&self, addresses: &Vec<String>) -> (r: Option<usize>)
        ensures
            match r {
                Some(i) => i < addresses@.len() && addresses@[i as int]@ == self.spec_device_mac()
                    && (forall|j: int|
                    0 <= j < i ==> addresses@[j]@ != self.spec_device_mac()),
                None => forall|j: int|
                    0 <= j < addresses@.len() ==> addresses@[j]@ != self.spec_device_mac(),
            },
    {
        find_text(addresses, &self.device_mac)
    }

    /// Which of a peripheral's characteristics is the wanted one: the first
    /// whose UUID text equals that of the given service characteristic.
    pub fn find_characteristic(
        &self,
        uuids: &Vec<String>,
        wanted: &ServiceCharacteristic,
    ) -> (r: Option<usize>)
        ensures
            match r {
                Some(i) => i < uuids@.len() && uuids@[i as int]@ == wanted.spec_characteristic()
                    && (forall|j: int|
                    0 <= j < i ==> uuids@[j]@ != wanted.spec_characteristic()),
                None => forall|j: int|
                    0 <= j < uuids@.len() ==> uuids@[j]@ != wanted.spec_characteristic(),
            },
    {
        find_text(uuids, &wanted.characteristic)
    }
}

/// The position of the first text equal to `wanted`, if any.
fn find_text(texts: &Vec<String>, wanted: &String) -> (r: Option<usize>)
    ensures
        match r {
            Some(i) => i < texts@.len() && texts@[i as int]@ == wanted@ && (forall|j: int|
                0 <= j < i ==> texts@[j]@ != wanted@),
            None => forall|j: int| 0 <= j < texts@.len() ==> texts@[j]@ != wanted@,
        },
{
    let n = texts.len();
    let mut i: usize = 0;
    while i < n
        invariant
            0 <= i <= n,
            n == texts@.len(),
            forall|j: int| 0 <= j < i ==> texts@[j]@ != wanted@,
        decreases n - i,
    {
        if texts[i] == *wanted {
            return Some(i);
        }
        i = i + 1;
    }
    None
}

/// The lowercase character of one hexadecimal digit.
pub open spec fn hex_char(n: u8) -> char {
    if n == 0 {
        '0'
    } else if n == 1 {
        '1'
    } else if n == 2 {
        '2'
    } else if n == 3 {
        '3'
    } else if n == 4 {
        '4'
    } else if n == 5 {
        '5'
    } else if n == 6 {
        '6'
    } else if n == 7 {
        '7'
    } else if n == 8 {
        '8'
    } else if n == 9 {
        '9'
    } else if n == 10 {
        'a'
    } else if n == 11 {
        'b'
    } else if n == 12 {
        'c'
    } else if n == 13 {
        'd'
    } else if n == 14 {
        'e'
    } else {
        'f'
    }
}

/// The two lowercase hexadecimal characters of one byte.
pub open spec fn hex_pair(b: u8) -> Seq<char> {
    seq![hex_char(b / 16), hex_char(b % 16)]
}

/// The tail every UUID in the Bluetooth base range shares.
pub open spec fn base_uuid_tail() -> Seq<char> {
    seq![
        '-',
        '0',
        '0',
        '0',
        '0',
        '-',
        '1',
        '0',
        '0',
        '0',
        '-',
        '8',
        '0',
        '0',
        '0',
        '-',
        '0',
        '0',
        '8',
        '0',
        '5',
        'f',
        '9',
        'b',
        '3',
        '4',
        'f',
        'b',
    ]
}

/// The UUID text of a 16-bit identifier in the Bluetooth base range.
pub open spec fn spec_uuid_from_u16(id: u16) -> Seq<char> {
    seq!['0', '0', '0', '0'] + hex_pair((id / 256) as u8) + hex_pair((id % 256) as u8)
        + base_uuid_tail()
}

/// The UUID text of a 32-bit identifier in the Bluetooth base range.
pub open spec fn spec_uuid_from_u32(id: u32) -> Seq<char> {
    hex_pair((id / 16777216) as u8) + hex_pair(((id / 65536) % 256) as u8) + hex_pair(
        ((id / 256) % 256) as u8,
    ) + hex_pair((id % 256) as u8) + base_uuid_tail()
}

/// Append the character of one hexadecimal digit.
fn push_hex_digit(s: &mut String, n: u8)
    requires
        n < 16,
    ensures
        final(s)@ == old(s)@ + seq![hex_char(n)],
{
    if n == 0 {
        s.append("0");
        proof {
            reveal_strlit("0");
            assert(old(s)@ + "0"@ =~= old(s)@ + seq![hex_char(n)]);
        }
    } else if n == 1 {
        s.append("1");
        proof {
            reveal_strlit("1");
            assert(old(s)@ + "1"@ =~= old(s)@ + seq![hex_char(n)]);
        }
    } else if n == 2 {
        s.append("2");
        proof {
            reveal_strlit("2");
            assert(old(s)@ + "2"@ =~= old(s)@ + seq![hex_char(n)]);
        }
    } else if n == 3 {
        s.append("3");
        proof {
            reveal_strlit("3");
            assert(old(s)@ + "3"@ =~= old(s)@ + seq![hex_char(n)]);
        }
    } else if n == 4 {
        s.append("4");
        proof {
            reveal_strlit("4");
            assert(old(s)@ + "4"@ =~= old(s)@ + seq![hex_char(n)]);
        }
    } else if n == 5 {
        s.append("5");
        proof {
            reveal_strlit("5");
            assert(old(s)@ + "5"@ =~= old(s)@ + seq![hex_char(n)]);
        }
    } else if n == 6 {
        s.append("6");
        proof {
            reveal_strlit("6");
            assert(old(s)@ + "6"@ =~= old(s)@ + seq![hex_char(n)]);
        }
    } else if n == 7 {
        s.append("7");
        proof {
            reveal_strlit("7");
            assert(old(s)@ + "7"@ =~= old(s)@ + seq![hex_char(n)]);
        }
    } else if n == 8 {
        s.append("8");
        proof {
            reveal_strlit("8");
            assert(old(s)@ + "8"@ =~= old(s)@ + seq![hex_char(n)]);
        }
    } else if n == 9 {
        s.append("9");
        proof {
            reveal_strlit("9");
            assert(old(s)@ + "9"@ =~= old(s)@ + seq![hex_char(n)]);
        }
    } else if n == 10 {
        s.append("a");
        proof {
            reveal_strlit("a");
            assert(old(s)@ + "a"@ =~= old(s)@ + seq![hex_char(n)]);
        }
    } else if n == 11 {
        s.append("b");
        proof {
            reveal_strlit("b");
            assert(old(s)@ + "b"@ =~= old(s)@ + seq![hex_char(n)]);
        }
    } else if n == 12 {
        s.append("c");
        proof {
            reveal_strlit("c");
            assert(old(s)@ + "c"@ =~= old(s)@ + seq![hex_char(n)]);
        }
    } else if n == 13 {
        s.append("d");
        proof {
            reveal_strlit("d");
            assert(old(s)@ + "d"@ =~= old(s)@ + seq![hex_char(n)]);
        }
    } else if n == 14 {
        s.append("e");
        proof {
            reveal_strlit("e");
            assert(old(s)@ + "e"@ =~= old(s)@ + seq![hex_char(n)]);
        }
    } else {
        s.append("f");
        proof {
            reveal_strlit("f");
            assert(old(s)@ + "f"@ =~= old(s)@ + seq![hex_char(n)]);
        }
    }
}

/// Append the two lowercase hexadecimal characters of one byte.
fn push_hex_byte(s: &mut String, b: u8)
    ensures
        final(s)@ == old(s)@ + hex_pair(b),
{
    push_hex_digit(s, b / 16);
    push_hex_digit(s, b % 16);
    proof {
        assert((old(s)@ + seq![hex_char(b / 16)]) + seq![hex_char(b % 16)] =~= old(s)@ + hex_pair(
            b,
        ));
    }
}

/// The UUID text of a 16-bit identifier in the Bluetooth base range, as
/// lowercase hexadecimal.
pub fn uuid_from_u16(id: u16) -> (r: String)
    ensures
        r@ == spec_uuid_from_u16(id),
{
    let mut s = String::new();
    s.append("0000");
    push_hex_byte(&mut s, (id / 256) as u8);
    push_hex_byte(&mut s, (id % 256) as u8);
    s.append("-0000-1000-8000-00805f9b34fb");
    proof {
        reveal_strlit("0000");
        reveal_strlit("-0000-1000-8000-00805f9b34fb");
        assert("0000"@ =~= seq!['0', '0', '0', '0']);
        assert("-0000-1000-8000-00805f9b34fb"@ =~= base_uuid_tail());
        assert(s@ =~= spec_uuid_from_u16(id));
    }
    s
}

/// The UUID text of a 32-bit identifier in the Bluetooth base range, as
/// lowercase hexadecimal.
pub fn uuid_from_u32(id: u32) -> (r: String)
    ensures
        r@ == spec_uuid_from_u32(id),
{
    let mut s = String::new();
    push_hex_byte(&mut s, (id / 16777216) as u8);
    push_hex_byte(&mut s, ((id / 65536) % 256) as u8);
    push_hex_byte(&mut s, ((id / 256) % 256) as u8);
    push_hex_byte(&mut s, (id % 256) as u8);
    s.append("-0000-1000-8000-00805f9b34fb");
    proof {
        reveal_strlit("-0000-1000-8000-00805f9b34fb");
        assert("-0000-1000-8000-00805f9b34fb"@ =~= base_uuid_tail());
        assert(s@ =~= spec_uuid_from_u32(id));
    }
    s
}

} // verus!
