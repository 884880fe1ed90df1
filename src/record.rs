//! The frame decoder: one frame's JSON text to a telemetry record.
use vstd::prelude::*;

verus! {

/// The bit pattern of the IEEE-754 double-precision number one.
pub const ONE_BITS: u64 = 0x3ff0_0000_0000_0000;

/// One decoded telemetry sample. The orientation components are carried as
/// IEEE-754 double-precision bit patterns, exactly as the JSON number was read;
/// `time` is the sender's `timestamp`.
#[derive(Clone, Copy, Debug, PartialEq, Eq, Structural)]
pub struct TelemetryRecord {
    pub x: u64,
    pub y: u64,
    pub z: u64,
    pub w: u64,
    pub time: u32,
}

impl TelemetryRecord {
    /// The identity orientation at time zero.
    pub open spec fn identity_spec() -> TelemetryRecord {
        TelemetryRecord { x: 0, y: 0, z: 0, w: ONE_BITS, time: 0 }
    }

    pub fn identity() -> (r: TelemetryRecord)
        ensures
            r == TelemetryRecord::identity_spec(),
    {
        TelemetryRecord { x: 0, y: 0, z: 0, w: ONE_BITS, time: 0 }
    }
}

/// The five fields a frame must carry.
#[derive(Clone, Copy, Debug, PartialEq, Eq, Structural)]
pub enum Field {
    Timestamp,
    X,
    Y,
    Z,
    W,
}

/// Why a frame, or a poll's worth of input, was rejected.
#[derive(Clone, Copy, Debug, PartialEq, Eq, Structural)]
pub enum Malformed {
    /// The text is not one JSON object.
    Syntax,
    /// The object lacks this field.
    Missing(Field),
    /// The field is not a number of the right kind (for the timestamp: an
    /// integer from 0 to `u32::MAX`).
    WrongType(Field),
    /// The pending partial frame outgrew the buffer's cap and was dropped.
    FrameTooLong,
}

/// The wire name of a field.
pub open spec fn field_name(f: Field) -> Seq<char> {
    match f {
        Field::Timestamp => "timestamp"@,
        Field::X => "x"@,
        Field::Y => "y"@,
        Field::Z => "z"@,
        Field::W => "w"@,
    }
}

/// One member of a JSON object: its key, its value's bits when the value is a
/// number, and its value when it is a non-negative integer.
pub struct JsonField {
    pub key: String,
    pub number_bits: Option<u64>,
    pub unsigned: Option<u64>,
}

/// The model of a [`JsonField`].
pub type Member = (Seq<char>, Option<u64>, Option<u64>);

impl View for JsonField {
    type V = Member;

    open spec fn view(&self) -> Member {
        (self.key@, self.number_bits, self.unsigned)
    }
}

pub open spec fn members(v: Seq<JsonField>) -> Seq<Member> {
    v.map_values(|f: JsonField| f@)
}

/// The members of the JSON object that `text` holds, or `None` where `text`
/// is not one JSON object.
pub uninterp spec fn json_object_members(text: Seq<u8>) -> Option<Seq<Member>>;

pub open spec fn parsed_members(r: Option<Vec<JsonField>>) -> Option<Seq<Member>> {
    match r {
        Some(v) => Some(members(v@)),
        None => None,
    }
}

/// Relies on serde_json::from_slice into a serde_json::Map<String, Value> to
/// parse one JSON object, and on Value::as_f64 and Value::as_u64 to read each
/// member's value as a number.
#[verifier::external_body]
fn object_members(text: &[u8]) -> (r: Option<Vec<JsonField>>)
    ensures
        parsed_members(r) == json_object_members(text@),
{
    match serde_json::from_slice::<serde_json::Map<String, serde_json::Value>>(text) {
        Ok(m) => Some(
            m.into_iter().map(
                |(key, v)|
                    JsonField { number_bits: v.as_f64().map(|n| n.to_bits()), unsigned: v.as_u64(), key },
            ).collect(),
        ),
        Err(_) => None,
    }
}

/// The value parts of the first member of `ms` under `key`.
pub open spec fn lookup(ms: Seq<Member>, key: Seq<char>) -> Option<(Option<u64>, Option<u64>)>
    decreases ms.len(),
{
    if ms.len() == 0 {
        None
    } else if ms[0].0 == key {
        Some((ms[0].1, ms[0].2))
    } else {
        lookup(ms.drop_first(), key)
    }
}

/// A component field: present, and a number.
pub open spec fn component(ms: Seq<Member>, f: Field) -> Result<u64, Malformed> {
    match lookup(ms, field_name(f)) {
        None => Err(Malformed::Missing(f)),
        Some((Some(bits), _)) => Ok(bits),
        Some((None, _)) => Err(Malformed::WrongType(f)),
    }
}

/// The timestamp field: present, and an integer that fits 32 bits.
pub open spec fn timestamp(ms: Seq<Member>) -> Result<u32, Malformed> {
    match lookup(ms, field_name(Field::Timestamp)) {
        None => Err(Malformed::Missing(Field::Timestamp)),
        Some((_, Some(n))) => if n <= u32::MAX {
            Ok(n as u32)
        } else {
            Err(Malformed::WrongType(Field::Timestamp))
        },
        Some((_, None)) => Err(Malformed::WrongType(Field::Timestamp)),
    }
}

/// The record that an object's members make; where several fields are wrong,
/// the first of timestamp, x, y, z, w is reported.
pub open spec fn record_of(ms: Seq<Member>) -> Result<TelemetryRecord, Malformed> {
    match (
        timestamp(ms),
        component(ms, Field::X),
        component(ms, Field::Y),
        component(ms, Field::Z),
        component(ms, Field::W),
    ) {
        (Err(e), _, _, _, _) => Err(e),
        (Ok(_), Err(e), _, _, _) => Err(e),
        (Ok(_), Ok(_), Err(e), _, _) => Err(e),
        (Ok(_), Ok(_), Ok(_), Err(e), _) => Err(e),
        (Ok(_), Ok(_), Ok(_), Ok(_), Err(e)) => Err(e),
        (Ok(time), Ok(x), Ok(y), Ok(z), Ok(w)) => Ok(TelemetryRecord { x, y, z, w, time }),
    }
}

/// What decoding the frame `text` gives.
pub open spec fn decoded(text: Seq<u8>) -> Result<TelemetryRecord, Malformed> {
    match json_object_members(text) {
        None => Err(Malformed::Syntax),
        Some(ms) => record_of(ms),
    }
}

fn find_member(fields: &Vec<JsonField>, key: &String) -> (r: Option<(Option<u64>, Option<u64>)>)
    ensures
        r == lookup(members(fields@), key@),
{
    let ghost ms = members(fields@);
    proof {
        assert(ms.skip(0) =~= ms);
    }
    let mut i: usize = 0;
    while i < fields.len()
        invariant
            i <= fields@.len(),
            ms == members(fields@),
            lookup(ms, key@) == lookup(ms.skip(i as int), key@),
        decreases fields@.len() - i,
    {
        proof {
            assert(ms.skip(i as int)[0] == fields@[i as int]@);
            assert(ms.skip(i as int).drop_first() =~= ms.skip(i + 1));
        }
        if fields[i].key == *key {
            return Some((fields[i].number_bits, fields[i].unsigned));
        }
        i = i + 1;
    }
    proof {
        assert(ms.skip(i as int) =~= Seq::<Member>::empty());
    }
    None
}

fn read_component(fields: &Vec<JsonField>, f: Field) -> (r: Result<u64, Malformed>)
    ensures
        r == component(members(fields@), f),
{
    let key = match f {
        Field::Timestamp => "timestamp".to_owned(),
        Field::X => "x".to_owned(),
        Field::Y => "y".to_owned(),
        Field::Z => "z".to_owned(),
        Field::W => "w".to_owned(),
    };
    match find_member(fields, &key) {
        None => Err(Malformed::Missing(f)),
        Some((Some(bits), _)) => Ok(bits),
        Some((None, _)) => Err(Malformed::WrongType(f)),
    }
}

fn read_timestamp(fields: &Vec<JsonField>) -> (r: Result<u32, Malformed>)
    ensures
        r == timestamp(members(fields@)),
{
    let key = "timestamp".to_owned();
    match find_member(fields, &key) {
        None => Err(Malformed::Missing(Field::Timestamp)),
        Some((_, Some(n))) => if n <= u32::MAX as u64 {
            Ok(n as u32)
        } else {
            Err(Malformed::WrongType(Field::Timestamp))
        },
        Some((_, None)) => Err(Malformed::WrongType(Field::Timestamp)),
    }
}

/// Builds a record from the members of a parsed JSON object. Other members
/// are ignored.
pub fn record_from_members(fields: &Vec<JsonField>) -> (r: Result<TelemetryRecord, Malformed>)
    ensures
        r == record_of(members(fields@)),
{
    let time = match read_timestamp(fields) {
        Ok(t) => t,
        Err(e) => return Err(e),
    };
    let x = match read_component(fields, Field::X) {
        Ok(v) => v,
        Err(e) => return Err(e),
    };
    let y = match read_component(fields, Field::Y) {
        Ok(v) => v,
        Err(e) => return Err(e),
    };
    let z = match read_component(fields, Field::Z) {
        Ok(v) => v,
        Err(e) => return Err(e),
    };
    let w = match read_component(fields, Field::W) {
        Ok(v) => v,
        Err(e) => return Err(e),
    };
    Ok(TelemetryRecord { x, y, z, w, time })
}

/// Decodes one frame (without its newline). A bad frame is reported, never
/// fatal.
pub fn decode(frame: &[u8]) -> (r: Result<TelemetryRecord, Malformed>)
    ensures
        r == decoded(frame@),
{
    match object_members(frame) {
        None => Err(Malformed::Syntax),
        Some(fields) => record_from_members(&fields),
    }
}

} // verus!
