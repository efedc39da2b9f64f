//! Commands: what one unit of the incoming stream asks for.

use vstd::prelude::*;
use vstd::string::*;

verus! {

/// One element of an array on the wire: a byte string, or anything else.
#[derive(Clone, Debug, PartialEq, Eq)]
pub enum WireElement {
    Data(Vec<u8>),
    Other,
}

/// One unit of the stream as it was framed: an array of elements, or a value
/// of any other kind.
#[derive(Clone, Debug, PartialEq, Eq)]
pub enum WireUnit {
    Array(Vec<WireElement>),
    Other,
}

/// A command of the stream.
#[derive(Clone, Debug, PartialEq, Eq)]
pub enum Command {
    /// Write `value` under `key`.
    SetValue { key: Vec<u8>, value: Vec<u8> },
    /// The key expires at the instant `at`, a decimal count of seconds.
    ExpireAt { key: Vec<u8>, at: Vec<u8> },
    /// Anything that is neither of the two.
    Other,
}

pub enum ElementView {
    Data(Seq<u8>),
    Other,
}

pub enum UnitView {
    Array(Seq<ElementView>),
    Other,
}

pub enum CommandView {
    SetValue { key: Seq<u8>, value: Seq<u8> },
    ExpireAt { key: Seq<u8>, at: Seq<u8> },
    Other,
}

impl View for WireElement {
    type V = ElementView;

    open spec fn view(&self) -> ElementView {
        match self {
            WireElement::Data(d) => ElementView::Data(d@),
            WireElement::Other => ElementView::Other,
        }
    }
}

impl View for WireUnit {
    type V = UnitView;

    open spec fn view(&self) -> UnitView {
        match self {
            WireUnit::Array(items) => UnitView::Array(items@.map_values(|e: WireElement| e@)),
            WireUnit::Other => UnitView::Other,
        }
    }
}

impl View for Command {
    type V = CommandView;

    open spec fn view(&self) -> CommandView {
        match self {
            Command::SetValue { key, value } => CommandView::SetValue { key: key@, value: value@ },
            Command::ExpireAt { key, at } => CommandView::ExpireAt { key: key@, at: at@ },
            Command::Other => CommandView::Other,
        }
    }
}

/// Why the stream gave no further unit.
#[derive(Clone, Copy, PartialEq, Eq, Debug, Structural)]
pub enum StreamStop {
    /// The stream ended between two units.
    EndOfStream,
    /// The stream ended within a unit, or held bytes that frame no unit.
    Malformed,
    /// Reading the stream failed for another reason than its end.
    ReadFailed,
}

/// Tells whether a run goes on to flush what it has when the stream stops for
/// this reason. The end of the stream and a unit that cannot be framed end
/// the stream as if it were complete; only a failed read ends the run.
pub fn ends_gracefully(stop: StreamStop) -> (r: bool)
    ensures
        r == (stop != StreamStop::ReadFailed),
{
    match stop {
        StreamStop::EndOfStream => true,
        StreamStop::Malformed => true,
        StreamStop::ReadFailed => false,
    }
}

/// The bytes of the command name `SET`.
pub open spec fn set_name() -> Seq<u8> {
    seq![0x53u8, 0x45u8, 0x54u8]
}

/// The bytes of the command name `EXPIREAT`.
pub open spec fn expireat_name() -> Seq<u8> {
    seq![0x45u8, 0x58u8, 0x50u8, 0x49u8, 0x52u8, 0x45u8, 0x41u8, 0x54u8]
}

/// The command that a unit stands for. An array of exactly three byte
/// strings whose first is `SET` or `EXPIREAT`, compared byte for byte, is that
/// command on the second with the third. Every other unit is `Other`: another
/// length, another name, an element that is no byte string, a unit that is no
/// array.
pub open spec fn command_of(unit: UnitView) -> CommandView {
    match unit {
        UnitView::Array(items) => {
            if items.len() == 3 && items[0] is Data && items[1] is Data && items[2] is Data {
                if items[0]->Data_0 == set_name() {
                    CommandView::SetValue { key: items[1]->Data_0, value: items[2]->Data_0 }
                } else if items[0]->Data_0 == expireat_name() {
                    CommandView::ExpireAt { key: items[1]->Data_0, at: items[2]->Data_0 }
                } else {
                    CommandView::Other
                }
            } else {
                CommandView::Other
            }
        },
        UnitView::Other => CommandView::Other,
    }
}

/// Compares two byte strings.
pub fn same_bytes(a: &[u8], b: &[u8]) -> (r: bool)
    ensures
        r == (a@ == b@),
{
    if a.len() != b.len() {
        return false;
    }
    let mut i: usize = 0;
    while i < a.len()
        invariant
            i <= a@.len(),
            a@.len() == b@.len(),
            a@.take(i as int) == b@.take(i as int),
        decreases a@.len() - i,
    {
        if a[i] != b[i] {
            return false;
        }
        assert(a@.take(i + 1) =~= a@.take(i as int).push(a@[i as int]));
        assert(b@.take(i + 1) =~= b@.take(i as int).push(b@[i as int]));
        i = i + 1;
    }
    assert(a@.take(a@.len() as int) =~= a@);
    assert(b@.take(b@.len() as int) =~= b@);
    true
}

/// Tells which command a framed unit is.
pub fn decode(unit: WireUnit) -> (c: Command)
    ensures
        c@ == command_of(unit@),
{
    match unit {
        WireUnit::Array(items) => {
            let mut items: Vec<WireElement> = items;
            let ghost all = items@;
            if items.len() != 3 {
                return Command::Other;
            }
            let third: Option<WireElement> = items.pop();
            let second: Option<WireElement> = items.pop();
            let first: Option<WireElement> = items.pop();
            match (first, second, third) {
                (
                    Some(WireElement::Data(name)),
                    Some(WireElement::Data(key)),
                    Some(WireElement::Data(last)),
                ) => {
                    proof {
                        assert(all.map_values(|e: WireElement| e@)[0] == all[0]@);
                        assert(all.map_values(|e: WireElement| e@)[1] == all[1]@);
                        assert(all.map_values(|e: WireElement| e@)[2] == all[2]@);
                        reveal_strlit("SET");
                        reveal_strlit("EXPIREAT");
                        is_ascii_spec_bytes("SET");
                        is_ascii_spec_bytes("EXPIREAT");
                        assert("SET".spec_bytes() =~= set_name());
                        assert("EXPIREAT".spec_bytes() =~= expireat_name());
                    }
                    if same_bytes(name.as_slice(), "SET".as_bytes()) {
                        Command::SetValue { key, value: last }
                    } else if same_bytes(name.as_slice(), "EXPIREAT".as_bytes()) {
                        Command::ExpireAt { key, at: last }
                    } else {
                        Command::Other
                    }
                },
                _ => {
                    proof {
                        assert(all.map_values(|e: WireElement| e@)[0] == all[0]@);
                        assert(all.map_values(|e: WireElement| e@)[1] == all[1]@);
                        assert(all.map_values(|e: WireElement| e@)[2] == all[2]@);
                    }
                    Command::Other
                },
            }
        },
        WireUnit::Other => Command::Other,
    }
}

} // verus!
