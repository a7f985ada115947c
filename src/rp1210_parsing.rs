use vstd::prelude::*;

verus! {

/// One section of an adapter's configuration file: its name (`None` for the
/// entries before the first header) and its entries in file order, as UTF-8 bytes.
pub struct IniSection {
    pub name: Option<Vec<u8>>,
    pub properties: Vec<(Vec<u8>, Vec<u8>)>,
}

/// Model of a section.
pub struct SectionView {
    pub name: Option<Seq<u8>>,
    pub properties: Seq<(Seq<u8>, Seq<u8>)>,
}

impl View for IniSection {
    type V = SectionView;

    open spec fn view(&self) -> SectionView {
        SectionView {
            name: match self.name {
                Some(n) => Some(n@),
                None => None,
            },
            properties: self.properties@.map_values(|p: (Vec<u8>, Vec<u8>)| (p.0@, p.1@)),
        }
    }
}

/// A device of an adapter, as the configuration describes it.
#[derive(Debug)]
pub struct Rp1210Device {
    pub id: i16,
    pub name: String,
    pub description: String,
}

/// An adapter driver and its devices that speak J1939.
#[derive(Debug)]
pub struct Rp1210Product {
    pub id: String,
    pub description: String,
    pub devices: Vec<Rp1210Device>,
}

/// A device entry found in the configuration, as UTF-8 bytes.
pub struct DeviceEntry {
    pub id: i16,
    pub name: Vec<u8>,
    pub description: Vec<u8>,
}

pub open spec fn starts_with(s: Seq<u8>, prefix: Seq<u8>) -> bool {
    prefix.len() <= s.len() && s.subrange(0, prefix.len() as int) == prefix
}

/// The value of the first entry under `key`.
pub open spec fn lookup(props: Seq<(Seq<u8>, Seq<u8>)>, key: Seq<u8>) -> Option<Seq<u8>>
    decreases props.len(),
{
    if props.len() == 0 {
        None
    } else if props[0].0 == key {
        Some(props[0].1)
    } else {
        lookup(props.drop_first(), key)
    }
}

/// The pieces of `s` between commas.
pub open spec fn split_commas(s: Seq<u8>) -> Seq<Seq<u8>>
    decreases s.len(),
{
    if s.len() == 0 {
        seq![Seq::<u8>::empty()]
    } else {
        let prev = split_commas(s.drop_last());
        if s.last() == 0x2Cu8 {
            prev.push(Seq::<u8>::empty())
        } else {
            prev.update(prev.len() - 1, prev.last().push(s.last()))
        }
    }
}

pub fn starts_with_bytes(s: &Vec<u8>, prefix: &Vec<u8>) -> (r: bool)
    ensures
        r == starts_with(s@, prefix@),
{
    if prefix.len() > s.len() {
        return false;
    }
    let mut i: usize = 0;
    while i < prefix.len()
        invariant
            prefix@.len() <= s@.len(),
            i <= prefix@.len(),
            forall|k: int| 0 <= k < i ==> s@[k] == prefix@[k],
        decreases prefix@.len() - i,
    {
        if s[i] != prefix[i] {
            assert(s@.subrange(0, prefix@.len() as int)[i as int] != prefix@[i as int]);
            return false;
        }
        i = i + 1;
    }
    assert(s@.subrange(0, prefix@.len() as int) =~= prefix@);
    true
}

pub fn bytes_equal(a: &Vec<u8>, b: &Vec<u8>) -> (r: bool)
    ensures
        r == (a@ == b@),
{
    if a.len() != b.len() {
        return false;
    }
    let mut i: usize = 0;
    while i < a.len()
        invariant
            a@.len() == b@.len(),
            i <= a@.len(),
            forall|k: int| 0 <= k < i ==> a@[k] == b@[k],
        decreases a@.len() - i,
    {
        if a[i] != b[i] {
            return false;
        }
        i = i + 1;
    }
    assert(a@ =~= b@);
    true
}

/// The value of the first entry of `section` under `key`, if any.
pub fn get_property<'a>(section: &'a IniSection, key: &Vec<u8>) -> (r: Option<&'a Vec<u8>>)
    ensures
        match r {
            Some(v) => lookup(section@.properties, key@) == Some(v@),
            None => lookup(section@.properties, key@) is None,
        },
{
    let props = &section.properties;
    let ghost all = section@.properties;
    let mut i: usize = 0;
    assert(all.subrange(0, all.len() as int) =~= all);
    while i < props.len()
        invariant
            i <= props@.len(),
            all == section@.properties,
            props@ == section.properties@,
            all.len() == props@.len(),
            lookup(all, key@) == lookup(all.subrange(i as int, all.len() as int), key@),
        decreases props@.len() - i,
    {
        let ghost rest = all.subrange(i as int, all.len() as int);
        assert(rest.drop_first() =~= all.subrange(i + 1, all.len() as int));
        assert(rest[0] == (props@[i as int].0@, props@[i as int].1@));
        if bytes_equal(&props[i].0, key) {
            return Some(&props[i].1);
        }
        i = i + 1;
    }
    None
}

/// `ProtocolInformation` as bytes.
pub open spec fn protocol_section() -> Seq<u8> {
    seq![0x50u8, 0x72u8, 0x6Fu8, 0x74u8, 0x6Fu8, 0x63u8, 0x6Fu8, 0x6Cu8, 0x49u8, 0x6Eu8, 0x66u8, 0x6Fu8, 0x72u8, 0x6Du8, 0x61u8, 0x74u8, 0x69u8, 0x6Fu8, 0x6Eu8]
}

fn protocol_section_bytes() -> (r: Vec<u8>)
    ensures
        r@ == protocol_section(),
{
    let r: Vec<u8> = vec![0x50u8, 0x72u8, 0x6Fu8, 0x74u8, 0x6Fu8, 0x63u8, 0x6Fu8, 0x6Cu8, 0x49u8, 0x6Eu8, 0x66u8, 0x6Fu8, 0x72u8, 0x6Du8, 0x61u8, 0x74u8, 0x69u8, 0x6Fu8, 0x6Eu8];
    assert(r@ =~= protocol_section());
    r
}

/// `ProtocolString` as bytes.
pub open spec fn protocol_string_key() -> Seq<u8> {
    seq![0x50u8, 0x72u8, 0x6Fu8, 0x74u8, 0x6Fu8, 0x63u8, 0x6Fu8, 0x6Cu8, 0x53u8, 0x74u8, 0x72u8, 0x69u8, 0x6Eu8, 0x67u8]
}

fn protocol_string_key_bytes() -> (r: Vec<u8>)
    ensures
        r@ == protocol_string_key(),
{
    let r: Vec<u8> = vec![0x50u8, 0x72u8, 0x6Fu8, 0x74u8, 0x6Fu8, 0x63u8, 0x6Fu8, 0x6Cu8, 0x53u8, 0x74u8, 0x72u8, 0x69u8, 0x6Eu8, 0x67u8];
    assert(r@ =~= protocol_string_key());
    r
}

/// `J1939` as bytes.
pub open spec fn j1939_text() -> Seq<u8> {
    seq![0x4Au8, 0x31u8, 0x39u8, 0x33u8, 0x39u8]
}

fn j1939_text_bytes() -> (r: Vec<u8>)
    ensures
        r@ == j1939_text(),
{
    let r: Vec<u8> = vec![0x4Au8, 0x31u8, 0x39u8, 0x33u8, 0x39u8];
    assert(r@ =~= j1939_text());
    r
}

/// `Devices` as bytes.
pub open spec fn devices_key() -> Seq<u8> {
    seq![0x44u8, 0x65u8, 0x76u8, 0x69u8, 0x63u8, 0x65u8, 0x73u8]
}

fn devices_key_bytes() -> (r: Vec<u8>)
    ensures
        r@ == devices_key(),
{
    let r: Vec<u8> = vec![0x44u8, 0x65u8, 0x76u8, 0x69u8, 0x63u8, 0x65u8, 0x73u8];
    assert(r@ =~= devices_key());
    r
}

/// `DeviceInformation` as bytes.
pub open spec fn device_section() -> Seq<u8> {
    seq![0x44u8, 0x65u8, 0x76u8, 0x69u8, 0x63u8, 0x65u8, 0x49u8, 0x6Eu8, 0x66u8, 0x6Fu8, 0x72u8, 0x6Du8, 0x61u8, 0x74u8, 0x69u8, 0x6Fu8, 0x6Eu8]
}

fn device_section_bytes() -> (r: Vec<u8>)
    ensures
        r@ == device_section(),
{
    let r: Vec<u8> = vec![0x44u8, 0x65u8, 0x76u8, 0x69u8, 0x63u8, 0x65u8, 0x49u8, 0x6Eu8, 0x66u8, 0x6Fu8, 0x72u8, 0x6Du8, 0x61u8, 0x74u8, 0x69u8, 0x6Fu8, 0x6Eu8];
    assert(r@ =~= device_section());
    r
}

/// `DeviceID` as bytes.
pub open spec fn device_id_key() -> Seq<u8> {
    seq![0x44u8, 0x65u8, 0x76u8, 0x69u8, 0x63u8, 0x65u8, 0x49u8, 0x44u8]
}

fn device_id_key_bytes() -> (r: Vec<u8>)
    ensures
        r@ == device_id_key(),
{
    let r: Vec<u8> = vec![0x44u8, 0x65u8, 0x76u8, 0x69u8, 0x63u8, 0x65u8, 0x49u8, 0x44u8];
    assert(r@ =~= device_id_key());
    r
}

/// `DeviceName` as bytes.
pub open spec fn device_name_key() -> Seq<u8> {
    seq![0x44u8, 0x65u8, 0x76u8, 0x69u8, 0x63u8, 0x65u8, 0x4Eu8, 0x61u8, 0x6Du8, 0x65u8]
}

fn device_name_key_bytes() -> (r: Vec<u8>)
    ensures
        r@ == device_name_key(),
{
    let r: Vec<u8> = vec![0x44u8, 0x65u8, 0x76u8, 0x69u8, 0x63u8, 0x65u8, 0x4Eu8, 0x61u8, 0x6Du8, 0x65u8];
    assert(r@ =~= device_name_key());
    r
}

/// `DeviceDescription` as bytes.
pub open spec fn device_description_key() -> Seq<u8> {
    seq![0x44u8, 0x65u8, 0x76u8, 0x69u8, 0x63u8, 0x65u8, 0x44u8, 0x65u8, 0x73u8, 0x63u8, 0x72u8, 0x69u8, 0x70u8, 0x74u8, 0x69u8, 0x6Fu8, 0x6Eu8]
}

fn device_description_key_bytes() -> (r: Vec<u8>)
    ensures
        r@ == device_description_key(),
{
    let r: Vec<u8> = vec![0x44u8, 0x65u8, 0x76u8, 0x69u8, 0x63u8, 0x65u8, 0x44u8, 0x65u8, 0x73u8, 0x63u8, 0x72u8, 0x69u8, 0x70u8, 0x74u8, 0x69u8, 0x6Fu8, 0x6Eu8];
    assert(r@ =~= device_description_key());
    r
}

/// `Unknown` as bytes.
pub open spec fn unknown_text() -> Seq<u8> {
    seq![0x55u8, 0x6Eu8, 0x6Bu8, 0x6Eu8, 0x6Fu8, 0x77u8, 0x6Eu8]
}

fn unknown_text_bytes() -> (r: Vec<u8>)
    ensures
        r@ == unknown_text(),
{
    let r: Vec<u8> = vec![0x55u8, 0x6Eu8, 0x6Bu8, 0x6Eu8, 0x6Fu8, 0x77u8, 0x6Eu8];
    assert(r@ =~= unknown_text());
    r
}

/// `VendorInformation` as bytes.
pub open spec fn vendor_section() -> Seq<u8> {
    seq![0x56u8, 0x65u8, 0x6Eu8, 0x64u8, 0x6Fu8, 0x72u8, 0x49u8, 0x6Eu8, 0x66u8, 0x6Fu8, 0x72u8, 0x6Du8, 0x61u8, 0x74u8, 0x69u8, 0x6Fu8, 0x6Eu8]
}

fn vendor_section_bytes() -> (r: Vec<u8>)
    ensures
        r@ == vendor_section(),
{
    let r: Vec<u8> = vec![0x56u8, 0x65u8, 0x6Eu8, 0x64u8, 0x6Fu8, 0x72u8, 0x49u8, 0x6Eu8, 0x66u8, 0x6Fu8, 0x72u8, 0x6Du8, 0x61u8, 0x74u8, 0x69u8, 0x6Fu8, 0x6Eu8];
    assert(r@ =~= vendor_section());
    r
}

/// `Name` as bytes.
pub open spec fn vendor_name_key() -> Seq<u8> {
    seq![0x4Eu8, 0x61u8, 0x6Du8, 0x65u8]
}

fn vendor_name_key_bytes() -> (r: Vec<u8>)
    ensures
        r@ == vendor_name_key(),
{
    let r: Vec<u8> = vec![0x4Eu8, 0x61u8, 0x6Du8, 0x65u8];
    assert(r@ =~= vendor_name_key());
    r
}

/// Splits `s` at each comma.
pub fn split_at_commas(s: &Vec<u8>) -> (r: Vec<Vec<u8>>)
    ensures
        r@.map_values(|p: Vec<u8>| p@) == split_commas(s@),
{
    let mut done: Vec<Vec<u8>> = Vec::new();
    let mut cur: Vec<u8> = Vec::new();
    let mut i: usize = 0;
    assert(s@.subrange(0, 0) =~= Seq::<u8>::empty());
    while i < s.len()
        invariant
            i <= s@.len(),
            done@.map_values(|p: Vec<u8>| p@).push(cur@) == split_commas(s@.subrange(0, i as int)),
        decreases s@.len() - i,
    {
        let ghost prev = s@.subrange(0, i as int);
        assert(s@.subrange(0, i + 1).drop_last() =~= prev);
        if s[i] == 0x2Cu8 {
            done.push(cur);
            cur = Vec::new();
            assert(done@.map_values(|p: Vec<u8>| p@).push(cur@) =~= split_commas(prev).push(
                Seq::<u8>::empty(),
            ));
        } else {
            let ghost before = done@.map_values(|p: Vec<u8>| p@).push(cur@);
            cur.push(s[i]);
            assert(done@.map_values(|p: Vec<u8>| p@).push(cur@) =~= before.update(
                before.len() - 1,
                before.last().push(s@[i as int]),
            ));
        }
        i = i + 1;
    }
    assert(s@.subrange(0, i as int) =~= s@);
    done.push(cur);
    assert(done@.map_values(|p: Vec<u8>| p@) =~= split_commas(s@));
    done
}

/// Value of a run of decimal digits.
pub open spec fn digits_value(s: Seq<u8>) -> int
    decreases s.len(),
{
    if s.len() == 0 {
        0
    } else {
        digits_value(s.drop_last()) * 10 + (s.last() - 0x30u8)
    }
}

pub open spec fn all_digits(s: Seq<u8>) -> bool {
    forall|i: int| 0 <= i < s.len() ==> 0x30u8 <= #[trigger] s[i] <= 0x39u8
}

/// A 16-bit signed decimal number: an optional sign, then one or more
/// digits, and nothing else; `None` for any other text or a value out of range.
pub open spec fn parsed_i16(s: Seq<u8>) -> Option<i16> {
    let neg = s.len() > 0 && s[0] == 0x2Du8;
    let signed = s.len() > 0 && (s[0] == 0x2Du8 || s[0] == 0x2Bu8);
    let body = if signed {
        s.drop_first()
    } else {
        s
    };
    let v = if neg {
        -digits_value(body)
    } else {
        digits_value(body)
    };
    if body.len() == 0 || !all_digits(body) || v < i16::MIN || v > i16::MAX {
        None
    } else {
        Some(v as i16)
    }
}

proof fn lemma_digits_nonneg(s: Seq<u8>)
    requires
        all_digits(s),
    ensures
        digits_value(s) >= 0,
    decreases s.len(),
{
    if s.len() > 0 {
        assert(all_digits(s.drop_last())) by {
            assert forall|i: int| 0 <= i < s.drop_last().len() implies 0x30u8 <= #[trigger] s.drop_last()[i] <= 0x39u8 by {
                assert(s.drop_last()[i] == s[i]);
            }
        }
        lemma_digits_nonneg(s.drop_last());
        assert(0x30u8 <= s[s.len() - 1]);
    }
}

pub fn parse_i16(s: &Vec<u8>) -> (r: Option<i16>)
    ensures
        r == parsed_i16(s@),
{
    let n = s.len();
    let neg = n > 0 && s[0] == 0x2Du8;
    let signed = n > 0 && (s[0] == 0x2Du8 || s[0] == 0x2Bu8);
    let start: usize = if signed { 1 } else { 0 };
    let ghost body = if signed { s@.drop_first() } else { s@ };
    assert(body =~= s@.subrange(start as int, n as int));
    if start == n {
        return None;
    }
    let mut acc: u32 = 0;
    let mut over = false;
    let mut i: usize = start;
    assert(s@.subrange(start as int, start as int) =~= Seq::<u8>::empty());
    while i < n
        invariant
            n == s@.len(),
            start <= i <= n,
            body == s@.subrange(start as int, n as int),
            signed == (s@.len() > 0 && (s@[0] == 0x2Du8 || s@[0] == 0x2Bu8)),
            neg == (s@.len() > 0 && s@[0] == 0x2Du8),
            body == (if signed { s@.drop_first() } else { s@ }),
            all_digits(s@.subrange(start as int, i as int)),
            !over ==> acc as int == digits_value(s@.subrange(start as int, i as int)) && acc <= 32768,
            over ==> digits_value(s@.subrange(start as int, i as int)) > 32768,
        decreases n - i,
    {
        let c = s[i];
        let ghost pre = s@.subrange(start as int, i as int);
        let ghost next = s@.subrange(start as int, i + 1);
        assert(next.drop_last() =~= pre);
        if c < 0x30u8 || c > 0x39u8 {
            assert(!all_digits(body)) by {
                assert(body[i - start] == c);
                assert(!(0x30u8 <= body[i - start] <= 0x39u8));
            }
            assert(parsed_i16(s@) is None);
            return None;
        }
        assert(all_digits(next)) by {
            assert forall|k: int| 0 <= k < next.len() implies 0x30u8 <= #[trigger] next[k] <= 0x39u8 by {
                if k < pre.len() {
                    assert(next[k] == pre[k]);
                }
            }
        }
        proof {
            lemma_digits_nonneg(pre);
        }
        if !over {
            let v = acc * 10 + (c - 0x30u8) as u32;
            if v > 32768 {
                over = true;
            } else {
                acc = v;
            }
        }
        i = i + 1;
    }
    assert(s@.subrange(start as int, n as int) =~= body);
    if over {
        return None;
    }
    if neg {
        Some((0 - (acc as i32)) as i16)
    } else if acc > 32767 {
        None
    } else {
        Some(acc as i16)
    }
}

pub open spec fn contains_piece(pieces: Seq<Seq<u8>>, x: Seq<u8>) -> bool {
    exists|i: int| 0 <= i < pieces.len() && pieces[i] == x
}

pub fn contains(pieces: &Vec<Vec<u8>>, x: &Vec<u8>) -> (r: bool)
    ensures
        r == contains_piece(pieces@.map_values(|p: Vec<u8>| p@), x@),
{
    let ghost all = pieces@.map_values(|p: Vec<u8>| p@);
    let mut i: usize = 0;
    while i < pieces.len()
        invariant
            i <= pieces@.len(),
            all == pieces@.map_values(|p: Vec<u8>| p@),
            forall|k: int| 0 <= k < i ==> all[k] != x@,
        decreases pieces@.len() - i,
    {
        if bytes_equal(&pieces[i], x) {
            assert(all[i as int] == x@);
            return true;
        }
        i = i + 1;
    }
    false
}

/// A section that describes the J1939 protocol.
pub open spec fn is_j1939_protocol(s: SectionView) -> bool {
    &&& s.name matches Some(n) && starts_with(n, protocol_section())
    &&& lookup(s.properties, protocol_string_key()) == Some(j1939_text())
}

/// The device identifiers that the J1939 protocol sections list, in file order.
pub open spec fn j1939_device_ids(secs: Seq<SectionView>) -> Seq<Seq<u8>>
    decreases secs.len(),
{
    if secs.len() == 0 {
        Seq::empty()
    } else {
        let prev = j1939_device_ids(secs.drop_last());
        let s = secs.last();
        if is_j1939_protocol(s) {
            match lookup(s.properties, devices_key()) {
                Some(d) => prev + split_commas(d),
                None => prev,
            }
        } else {
            prev
        }
    }
}

/// A device section whose identifier is among `ids`.
pub open spec fn is_listed_device(s: SectionView, ids: Seq<Seq<u8>>) -> bool {
    &&& s.name matches Some(n) && starts_with(n, device_section())
    &&& lookup(s.properties, device_id_key()) matches Some(id) && contains_piece(ids, id)
}

/// The value under `key`, or `default` when there is none.
pub open spec fn lookup_or(props: Seq<(Seq<u8>, Seq<u8>)>, key: Seq<u8>, default: Seq<u8>) -> Seq<u8> {
    match lookup(props, key) {
        Some(v) => v,
        None => default,
    }
}

/// The device a listed device section describes: its identifier as a number
/// (-1 where it is not one), its name and its description ("Unknown" where missing).
pub open spec fn device_of(s: SectionView) -> (i16, Seq<u8>, Seq<u8>) {
    (
        match parsed_i16(lookup_or(s.properties, device_id_key(), seq![0x30u8])) {
            Some(v) => v,
            None => -1i16,
        },
        lookup_or(s.properties, device_name_key(), unknown_text()),
        lookup_or(s.properties, device_description_key(), unknown_text()),
    )
}

/// The devices of the listed device sections, in file order.
pub open spec fn listed_devices(secs: Seq<SectionView>, ids: Seq<Seq<u8>>) -> Seq<(i16, Seq<u8>, Seq<u8>)>
    decreases secs.len(),
{
    if secs.len() == 0 {
        Seq::empty()
    } else {
        let prev = listed_devices(secs.drop_last(), ids);
        if is_listed_device(secs.last(), ids) {
            prev.push(device_of(secs.last()))
        } else {
            prev
        }
    }
}

/// The vendor's name: the `Name` entry of the first vendor section, or empty.
pub open spec fn vendor_name(secs: Seq<SectionView>) -> Seq<u8>
    decreases secs.len(),
{
    if secs.len() == 0 {
        Seq::empty()
    } else if secs[0].name == Some(vendor_section()) {
        lookup_or(secs[0].properties, vendor_name_key(), Seq::empty())
    } else {
        vendor_name(secs.drop_first())
    }
}

pub open spec fn entry_view(e: DeviceEntry) -> (i16, Seq<u8>, Seq<u8>) {
    (e.id, e.name@, e.description@)
}



pub open spec fn sections_view(secs: Seq<IniSection>) -> Seq<SectionView> {
    secs.map_values(|s: IniSection| s@)
}

fn name_starts_with(sec: &IniSection, prefix: &Vec<u8>) -> (r: bool)
    ensures
        r == (sec@.name matches Some(n) && starts_with(n, prefix@)),
{
    match &sec.name {
        Some(n) => starts_with_bytes(n, prefix),
        None => false,
    }
}

/// The device identifiers that the J1939 protocol sections list.
pub fn j1939_ids(secs: &Vec<IniSection>) -> (r: Vec<Vec<u8>>)
    ensures
        r@.map_values(|p: Vec<u8>| p@) == j1939_device_ids(sections_view(secs@)),
{
    let ghost all = sections_view(secs@);
    let protocol = protocol_section_bytes();
    let protocol_string = protocol_string_key_bytes();
    let j1939 = j1939_text_bytes();
    let devices = devices_key_bytes();
    let mut ids: Vec<Vec<u8>> = Vec::new();
    let mut i: usize = 0;
    assert(all.subrange(0, 0) =~= Seq::<SectionView>::empty());
    assert(ids@.map_values(|p: Vec<u8>| p@) =~= Seq::<Seq<u8>>::empty());
    while i < secs.len()
        invariant
            i <= secs@.len(),
            all == sections_view(secs@),
            protocol@ == protocol_section(),
            protocol_string@ == protocol_string_key(),
            j1939@ == j1939_text(),
            devices@ == devices_key(),
            ids@.map_values(|p: Vec<u8>| p@) == j1939_device_ids(all.subrange(0, i as int)),
        decreases secs@.len() - i,
    {
        let sec = &secs[i];
        assert(all.subrange(0, i + 1).drop_last() =~= all.subrange(0, i as int));
        assert(all.subrange(0, i + 1).last() == sec@);
        let mut is_protocol = name_starts_with(sec, &protocol);
        if is_protocol {
            is_protocol = match get_property(sec, &protocol_string) {
                Some(v) => bytes_equal(v, &j1939),
                None => false,
            };
        }
        if is_protocol {
            match get_property(sec, &devices) {
                Some(d) => {
                    let pieces = split_at_commas(d);
                    let ghost before = ids@.map_values(|p: Vec<u8>| p@);
                    let ghost pv = pieces@.map_values(|p: Vec<u8>| p@);
                    let mut k: usize = 0;
                    assert(before + pv.subrange(0, 0) =~= before);
                    while k < pieces.len()
                        invariant
                            k <= pieces@.len(),
                            pv == pieces@.map_values(|p: Vec<u8>| p@),
                            ids@.map_values(|p: Vec<u8>| p@) == before + pv.subrange(0, k as int),
                        decreases pieces@.len() - k,
                    {
                        let piece = copy_bytes(&pieces[k]);
                        assert(piece@ == pv[k as int]);
                        let ghost prev_ids = ids@.map_values(|p: Vec<u8>| p@);
                        ids.push(piece);
                        assert(ids@.map_values(|p: Vec<u8>| p@) =~= prev_ids.push(piece@));
                        assert(before + pv.subrange(0, k + 1) =~= (before + pv.subrange(0, k as int)).push(pv[k as int]));
                        k = k + 1;
                    }
                    assert(pv.subrange(0, k as int) =~= pv);
                },
                None => {},
            }
        }
        i = i + 1;
    }
    assert(all.subrange(0, i as int) =~= all);
    ids
}

/// A copy of `b`.
pub fn copy_bytes(b: &Vec<u8>) -> (r: Vec<u8>)
    ensures
        r@ == b@,
{
    let mut r: Vec<u8> = Vec::new();
    let mut i: usize = 0;
    while i < b.len()
        invariant
            i <= b@.len(),
            r@ == b@.subrange(0, i as int),
        decreases b@.len() - i,
    {
        r.push(b[i]);
        i = i + 1;
        assert(r@ =~= b@.subrange(0, i as int));
    }
    assert(r@ =~= b@);
    r
}

fn value_or(v: Option<&Vec<u8>>, default: &Vec<u8>) -> (r: Vec<u8>)
    ensures
        r@ == match v {
            Some(x) => x@,
            None => default@,
        },
{
    match v {
        Some(x) => copy_bytes(x),
        None => copy_bytes(default),
    }
}

/// The devices of the device sections whose identifier is among `ids`.
pub fn select_devices(secs: &Vec<IniSection>, ids: &Vec<Vec<u8>>) -> (r: Vec<DeviceEntry>)
    ensures
        r@.map_values(|e: DeviceEntry| entry_view(e)) == listed_devices(
            sections_view(secs@),
            ids@.map_values(|p: Vec<u8>| p@),
        ),
{
    let ghost all = sections_view(secs@);
    let ghost idv = ids@.map_values(|p: Vec<u8>| p@);
    let device = device_section_bytes();
    let id_key = device_id_key_bytes();
    let name_key = device_name_key_bytes();
    let description_key = device_description_key_bytes();
    let unknown = unknown_text_bytes();
    let zero: Vec<u8> = vec![0x30u8];
    assert(zero@ =~= seq![0x30u8]);
    let mut out: Vec<DeviceEntry> = Vec::new();
    let mut i: usize = 0;
    assert(all.subrange(0, 0) =~= Seq::<SectionView>::empty());
    assert(out@.map_values(|e: DeviceEntry| entry_view(e)) =~= Seq::<(i16, Seq<u8>, Seq<u8>)>::empty());
    while i < secs.len()
        invariant
            i <= secs@.len(),
            all == sections_view(secs@),
            idv == ids@.map_values(|p: Vec<u8>| p@),
            device@ == device_section(),
            id_key@ == device_id_key(),
            name_key@ == device_name_key(),
            description_key@ == device_description_key(),
            unknown@ == unknown_text(),
            zero@ == seq![0x30u8],
            out@.map_values(|e: DeviceEntry| entry_view(e)) == listed_devices(all.subrange(0, i as int), idv),
        decreases secs@.len() - i,
    {
        let sec = &secs[i];
        assert(all.subrange(0, i + 1).drop_last() =~= all.subrange(0, i as int));
        assert(all.subrange(0, i + 1).last() == sec@);
        let mut listed = name_starts_with(sec, &device);
        if listed {
            listed = match get_property(sec, &id_key) {
                Some(v) => contains(ids, v),
                None => false,
            };
        }
        if listed {
            let id_text = value_or(get_property(sec, &id_key), &zero);
            let id = match parse_i16(&id_text) {
                Some(v) => v,
                None => -1i16,
            };
            let name = value_or(get_property(sec, &name_key), &unknown);
            let description = value_or(get_property(sec, &description_key), &unknown);
            let ghost before = out@.map_values(|e: DeviceEntry| entry_view(e));
            out.push(DeviceEntry { id, name, description });
            assert(out@.map_values(|e: DeviceEntry| entry_view(e)) =~= before.push(device_of(sec@)));
        }
        i = i + 1;
    }
    assert(all.subrange(0, i as int) =~= all);
    out
}

/// The vendor's name from the first vendor section, or empty.
pub fn vendor_description(secs: &Vec<IniSection>) -> (r: Vec<u8>)
    ensures
        r@ == vendor_name(sections_view(secs@)),
{
    let ghost all = sections_view(secs@);
    let vendor = vendor_section_bytes();
    let name_key = vendor_name_key_bytes();
    let empty: Vec<u8> = Vec::new();
    let mut i: usize = 0;
    assert(all.subrange(0, all.len() as int) =~= all);
    while i < secs.len()
        invariant
            i <= secs@.len(),
            all == sections_view(secs@),
            vendor@ == vendor_section(),
            name_key@ == vendor_name_key(),
            empty@ == Seq::<u8>::empty(),
            vendor_name(all) == vendor_name(all.subrange(i as int, all.len() as int)),
        decreases secs@.len() - i,
    {
        let sec = &secs[i];
        let ghost rest = all.subrange(i as int, all.len() as int);
        assert(rest.drop_first() =~= all.subrange(i + 1, all.len() as int));
        assert(rest[0] == sec@);
        let is_vendor = match &sec.name {
            Some(n) => bytes_equal(n, &vendor),
            None => false,
        };
        if is_vendor {
            return value_or(get_property(sec, &name_key), &empty);
        }
        i = i + 1;
    }
    empty
}

/// The vendor's name and the J1939 devices that an adapter's configuration describes.
pub fn list_devices_for_prod(secs: &Vec<IniSection>) -> (r: (Vec<u8>, Vec<DeviceEntry>))
    ensures
        r.0@ == vendor_name(sections_view(secs@)),
        r.1@.map_values(|e: DeviceEntry| entry_view(e)) == listed_devices(
            sections_view(secs@),
            j1939_device_ids(sections_view(secs@)),
        ),
{
    let ids = j1939_ids(secs);
    let devices = select_devices(secs, &ids);
    let description = vendor_description(secs);
    (description, devices)
}

} // verus!
