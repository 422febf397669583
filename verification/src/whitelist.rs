//! The symbol whitelist: the exact set of foreign type names and function
//! names the generated symbol module may expose. Fixed configuration data,
//! read-only at build time.

use vstd::prelude::*;
use vstd::string::StringExecFns;
use vstd::string::StrSliceExecFns;

verus! {

/// Whether a character may open a symbol name: an ASCII letter or an
/// underscore.
pub open spec fn ident_start(c: char) -> bool {
    ||| ('a' as u32) <= (c as u32) && (c as u32) <= ('z' as u32)
    ||| ('A' as u32) <= (c as u32) && (c as u32) <= ('Z' as u32)
    ||| c == '_'
}

/// Whether a character may continue a symbol name: an opener or an ASCII
/// digit.
pub open spec fn ident_continue(c: char) -> bool {
    ||| ident_start(c)
    ||| ('0' as u32) <= (c as u32) && (c as u32) <= ('9' as u32)
}

/// A well-formed symbol name: nonempty, opened by a letter or underscore,
/// continued by letters, digits and underscores only.
pub open spec fn is_ident(s: Seq<char>) -> bool {
    &&& s.len() > 0
    &&& ident_start(s[0])
    &&& forall|i: int| 1 <= i < s.len() ==> ident_continue(#[trigger] s[i])
}

/// Decides whether a character may open a symbol name.
fn check_ident_start(c: char) -> (r: bool)
    ensures
        r == ident_start(c),
{
    let u = c as u32;
    ('a' as u32) <= u && u <= ('z' as u32) || ('A' as u32) <= u && u <= ('Z' as u32) || c == '_'
}

/// Decides whether a string is a well-formed symbol name.
pub fn check_ident(s: &str) -> (r: bool)
    ensures
        r == is_ident(s@),
{
    let len = s.unicode_len();
    if len == 0 {
        return false;
    }
    if !check_ident_start(s.get_char(0)) {
        return false;
    }
    let mut i: usize = 1;
    while i < len
        invariant
            len == s@.len(),
            1 <= i <= len,
            ident_start(s@[0]),
            forall|j: int| 1 <= j < i ==> ident_continue(#[trigger] s@[j]),
        decreases len - i,
    {
        let c = s.get_char(i);
        let u = c as u32;
        let cont = check_ident_start(c) || ('0' as u32) <= u && u <= ('9' as u32);
        if !cont {
            proof {
                assert(!ident_continue(s@[i as int]));
            }
            return false;
        }
        i = i + 1;
    }
    true
}

/// The curated sets of foreign symbol names exposed to generation: type
/// names and function names, each whitelisted independently. Nothing
/// outside these sets may appear in the generated symbol module.
#[derive(Debug)]
pub struct Whitelist {
    pub types: Vec<String>,
    pub functions: Vec<String>,
}

impl Whitelist {
    /// Every whitelisted name is a well-formed symbol name.
    pub open spec fn wf(&self) -> bool {
        &&& forall|i: int| 0 <= i < self.types@.len() ==> is_ident(#[trigger] self.types@[i]@)
        &&& forall|i: int|
            0 <= i < self.functions@.len() ==> is_ident(#[trigger] self.functions@[i]@)
    }
}

/// The fixed whitelist of this bridge: the opaque environment handle type
/// and the single creation function the runtime wrapper needs.
pub fn default_whitelist() -> (w: Whitelist)
    ensures
        w.types@.len() == 1,
        w.types@[0]@ == "CPXENVptr"@,
        w.functions@.len() == 1,
        w.functions@[0]@ == "CPXopenCPLEX"@,
        w.wf(),
{
    let mut types: Vec<String> = Vec::new();
    types.push(String::from_str("CPXENVptr"));
    let mut functions: Vec<String> = Vec::new();
    functions.push(String::from_str("CPXopenCPLEX"));
    proof {
        reveal_strlit("CPXENVptr");
        reveal_strlit("CPXopenCPLEX");
        assert forall|i: int| 1 <= i < "CPXENVptr"@.len() implies ident_continue(
            #[trigger] "CPXENVptr"@[i],
        ) by {
            assert(ident_continue("CPXENVptr"@[i]));
        }
        assert(is_ident("CPXENVptr"@));
        assert forall|i: int| 1 <= i < "CPXopenCPLEX"@.len() implies ident_continue(
            #[trigger] "CPXopenCPLEX"@[i],
        ) by {
            assert(ident_continue("CPXopenCPLEX"@[i]));
        }
        assert(is_ident("CPXopenCPLEX"@));
    }
    Whitelist { types, functions }
}

} // verus!
