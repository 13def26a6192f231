//! The test the firmware runs, chosen at build time by the `MODE` setting.
use vstd::prelude::*;

verus! {

/// The firmware's tests.
#[derive(PartialEq, Eq, Structural, Clone, Copy, Debug)]
pub enum TestMode {
    /// MIDI IN 1 receive (the default).
    Receive,
    /// MIDI IN 2 receive.
    Receive2,
    Send,
    Display,
    Bpm,
    Nor,
    Fram,
    Switch,
}

/// The bytes of an ASCII text.
pub open spec fn ascii_bytes(s: Seq<char>) -> Seq<u8> {
    s.map_values(|c: char| c as u8)
}

/// The mode a `MODE` setting names: `receive2`, `send`, `display`, `bpm`, `nor`, `fram` or
/// `switch`; anything else, or no setting, is the MIDI IN 1 receive.
pub open spec fn mode_spec(setting: Option<Seq<u8>>) -> TestMode {
    match setting {
        Some(s) => if s == ascii_bytes("receive2"@) {
            TestMode::Receive2
        } else if s == ascii_bytes("send"@) {
            TestMode::Send
        } else if s == ascii_bytes("display"@) {
            TestMode::Display
        } else if s == ascii_bytes("bpm"@) {
            TestMode::Bpm
        } else if s == ascii_bytes("nor"@) {
            TestMode::Nor
        } else if s == ascii_bytes("fram"@) {
            TestMode::Fram
        } else if s == ascii_bytes("switch"@) {
            TestMode::Switch
        } else {
            TestMode::Receive
        },
        None => TestMode::Receive,
    }
}

fn is(s: &[u8], name: &str) -> (b: bool)
    requires
        name.is_ascii(),
    ensures
        b == (s@ == ascii_bytes(name@)),
{
    let bytes = name.as_bytes();
    proof {
        vstd::string::is_ascii_spec_bytes(name);
    }
    assert(bytes@ =~= ascii_bytes(name@));
    if s.len() != bytes.len() {
        return false;
    }
    let mut i: usize = 0;
    while i < s.len()
        invariant
            i <= s.len(),
            s.len() == bytes@.len(),
            bytes@ == ascii_bytes(name@),
            forall|j: int| 0 <= j < i ==> s@[j] == bytes@[j],
        decreases s.len() - i,
    {
        if s[i] != bytes[i] {
            assert(s@[i as int] != bytes@[i as int]);
            return false;
        }
        i = i + 1;
    }
    assert(s@ =~= bytes@);
    true
}

/// The test of a build with `MODE` set to `setting`, or unset.
pub fn test_mode(setting: Option<&[u8]>) -> (m: TestMode)
    ensures
        m == mode_spec(match setting {
            Some(s) => Some(s@),
            None => None,
        }),
{
    match setting {
        None => TestMode::Receive,
        Some(s) => {
            proof {
                reveal_strlit("receive2");
                reveal_strlit("send");
                reveal_strlit("display");
                reveal_strlit("bpm");
                reveal_strlit("nor");
                reveal_strlit("fram");
                reveal_strlit("switch");
            }
            if is(s, "receive2") {
                TestMode::Receive2
            } else if is(s, "send") {
                TestMode::Send
            } else if is(s, "display") {
                TestMode::Display
            } else if is(s, "bpm") {
                TestMode::Bpm
            } else if is(s, "nor") {
                TestMode::Nor
            } else if is(s, "fram") {
                TestMode::Fram
            } else if is(s, "switch") {
                TestMode::Switch
            } else {
                TestMode::Receive
            }
        },
    }
}

/// Each `MODE` name selects the test of that name, and only that name does: `receive2`,
/// `send`, `display`, `bpm`, `nor`, `fram`, `switch` (as bytes). Every other setting, and no
/// setting, selects the MIDI IN 1 receive. So distinct names select distinct tests.
pub proof fn lemma_mode_names(s: Seq<u8>)
    ensures
        mode_spec(Some(s)) == TestMode::Receive2 <==> s == seq![114u8, 101, 99, 101, 105, 118, 101, 50],
        mode_spec(Some(s)) == TestMode::Send <==> s == seq![115u8, 101, 110, 100],
        mode_spec(Some(s)) == TestMode::Display <==> s == seq![100u8, 105, 115, 112, 108, 97, 121],
        mode_spec(Some(s)) == TestMode::Bpm <==> s == seq![98u8, 112, 109],
        mode_spec(Some(s)) == TestMode::Nor <==> s == seq![110u8, 111, 114],
        mode_spec(Some(s)) == TestMode::Fram <==> s == seq![102u8, 114, 97, 109],
        mode_spec(Some(s)) == TestMode::Switch <==> s == seq![115u8, 119, 105, 116, 99, 104],
        mode_spec(None) == TestMode::Receive,
{
    reveal_strlit("receive2");
    reveal_strlit("send");
    reveal_strlit("display");
    reveal_strlit("bpm");
    reveal_strlit("nor");
    reveal_strlit("fram");
    reveal_strlit("switch");
    assert(ascii_bytes("receive2"@) =~= seq![114u8, 101, 99, 101, 105, 118, 101, 50]);
    assert(ascii_bytes("send"@) =~= seq![115u8, 101, 110, 100]);
    assert(ascii_bytes("display"@) =~= seq![100u8, 105, 115, 112, 108, 97, 121]);
    assert(ascii_bytes("bpm"@) =~= seq![98u8, 112, 109]);
    assert(ascii_bytes("nor"@) =~= seq![110u8, 111, 114]);
    assert(ascii_bytes("fram"@) =~= seq![102u8, 114, 97, 109]);
    assert(ascii_bytes("switch"@) =~= seq![115u8, 119, 105, 116, 99, 104]);
}

} // verus!
