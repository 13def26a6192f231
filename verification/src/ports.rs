//! Choosing a host MIDI port, by name or index, and listing them.
use crate::text::{bytes_equal, decimal, digits_value, parse_usize, parse_usize_spec, push_decimal, unsigned_body};
use vstd::prelude::*;

verus! {

/// Why no port was found.
#[derive(PartialEq, Eq, Structural, Clone, Copy, Debug)]
pub enum PortError {
    /// `wanted` is a number, and there is no port with that index.
    IndexNotFound(usize),
    /// `wanted` is not a number, and no port has that name.
    NameNotFound,
}

/// Whether port `name` (`None` where its name could not be read) is named `wanted`.
pub open spec fn named(name: Option<Seq<u8>>, wanted: Seq<u8>) -> bool {
    name == Some(wanted)
}

/// The index of the first port named `wanted`.
pub open spec fn first_named(names: Seq<Option<Seq<u8>>>, wanted: Seq<u8>) -> int {
    choose|i: int|
        0 <= i < names.len() && named(#[trigger] names[i], wanted) && forall|j: int|
            0 <= j < i ==> !named(#[trigger] names[j], wanted)
}

/// A port named `wanted` with none before it is the first one named so.
pub proof fn lemma_first_named(names: Seq<Option<Seq<u8>>>, wanted: Seq<u8>, i: int)
    requires
        0 <= i < names.len(),
        named(names[i], wanted),
        forall|j: int| 0 <= j < i ==> !named(#[trigger] names[j], wanted),
    ensures
        first_named(names, wanted) == i,
{
    let k = first_named(names, wanted);
    assert(0 <= k < names.len() && named(names[k], wanted) && forall|j: int|
        0 <= j < k ==> !named(#[trigger] names[j], wanted));
    if k < i {
        assert(!named(names[k], wanted));
    }
    if i < k {
        assert(!named(names[i], wanted));
    }
}

/// The port chosen by `wanted` among ports with names `names` (`None` where a name cannot be
/// read): by index when `wanted` is a number, else the first with exactly that name.
pub open spec fn find_port_spec(names: Seq<Option<Seq<u8>>>, wanted: Seq<u8>) -> Result<usize, PortError> {
    match parse_usize_spec(wanted) {
        Some(index) => if index < names.len() {
            Ok(index)
        } else {
            Err(PortError::IndexNotFound(index))
        },
        None => if exists|i: int| 0 <= i < names.len() && named(#[trigger] names[i], wanted) {
            Ok(first_named(names, wanted) as usize)
        } else {
            Err(PortError::NameNotFound)
        },
    }
}



/// The port names as byte sequences, `None` where a name cannot be read.
pub open spec fn name_view(names: Seq<Option<Vec<u8>>>) -> Seq<Option<Seq<u8>>> {
    names.map_values(|n: Option<Vec<u8>>| match n {
        Some(v) => Some(v@),
        None => None,
    })
}

/// Finds a port by exact name, or by index when `wanted` is a number. `names` holds the
/// bytes of each port's name, `None` where it cannot be read.
pub fn find_port(names: &Vec<Option<Vec<u8>>>, wanted: &[u8]) -> (r: Result<usize, PortError>)
    ensures
        r == find_port_spec(name_view(names@), wanted@),
{
    let ghost view = name_view(names@);
    match parse_usize(wanted) {
        Some(index) => {
            if index < names.len() {
                Ok(index)
            } else {
                Err(PortError::IndexNotFound(index))
            }
        },
        None => {
            let mut i: usize = 0;
            while i < names.len()
                invariant
                    i <= names@.len(),
                    view.len() == names@.len(),
                    view == name_view(names@),
                    parse_usize_spec(wanted@) is None,
                    forall|j: int| 0 <= j < i ==> !named(#[trigger] view[j], wanted@),
                decreases names@.len() - i,
            {
                let hit = match &names[i] {
                    Some(name) => bytes_equal(name.as_slice(), wanted),
                    None => false,
                };
                if hit {
                    assert(named(view[i as int], wanted@));
                    proof { lemma_first_named(view, wanted@, i as int); }
                    return Ok(i);
                }
                assert(!named(view[i as int], wanted@));
                i = i + 1;
            }
            Err(PortError::NameNotFound)
        },
    }
}

/// Which port lists `list` shows: both when neither or both of `--input` and `--output` are
/// given, else only the one asked for. Outputs first.
pub fn list_selection(input: bool, output: bool) -> (r: (bool, bool))
    ensures
        r.0 == (output || input == output),
        r.1 == (input || input == output),
{
    let both = input == output;
    (output || both, input || both)
}

/// The header of a port list: `{descr} ports:`.
pub fn list_header(descr: &str) -> (s: String)
    ensures
        s@ == descr@ + " ports:"@,
{
    let mut s = String::from_str(descr);
    s.append(" ports:");
    s
}

/// A line of a port list: `{index}: {name}`.
pub fn port_line(index: u32, name: &str) -> (s: String)
    ensures
        s@ == decimal(index as nat) + ": "@ + name@,
{
    let mut s = String::new();
    push_decimal(&mut s, index);
    s.append(": ");
    s.append(name);
    s
}

/// A number below the port count selects the port with that index, whatever the names; a
/// number fails with `IndexNotFound` only when there is no port at that index. In particular a
/// single decimal digit `d` selects port `d` whenever there are more than `d` ports.
pub proof fn lemma_index_selects(names: Seq<Option<Seq<u8>>>, wanted: Seq<u8>, i: usize, d: u8)
    ensures
        parse_usize_spec(wanted) == Some(i) && i < names.len() ==> find_port_spec(names, wanted) == Ok::<usize, PortError>(i),
        find_port_spec(names, wanted) == Err::<usize, PortError>(PortError::IndexNotFound(i)) ==> parse_usize_spec(wanted)
            == Some(i) && i >= names.len(),
        48 <= d <= 57 && d - 48 < names.len() ==> find_port_spec(names, seq![d]) == Ok::<usize, PortError>((d - 48) as usize),
{
    if 48 <= d <= 57 {
        let w = seq![d];
        assert(unsigned_body(w) == w);
        assert(w.drop_last() =~= Seq::<u8>::empty());
        assert(digits_value(Seq::<u8>::empty()) == 0);
        assert(digits_value(w.drop_last()) == 0);
        assert(w.last() == d);
        assert(digits_value(w) == d - 48);
        assert(parse_usize_spec(w) == Some((d - 48) as usize));
    }
}

} // verus!
