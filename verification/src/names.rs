//! The name resolver: an explicit override wins; otherwise the record's
//! rename rule is applied to the declared identifier under the naming target
//! (the record's own type name, or a field name). Raw-identifier escapes are
//! recorded in the descriptor and never reach an external name.

use vstd::prelude::*;
use vstd::string::StrSliceExecFns;
use vstd::string::StringExecFns;

use crate::descriptor::FieldDescriptor;
use crate::descriptor::RecordDescriptor;
use crate::descriptor::RenameRule;
use crate::descriptor::RenameTarget;

verus! {

/// Appends one character to a string.
///
/// Relies on `String::push`, which std documents as appending the given
/// `char` to the end of the `String`.
#[verifier::external_body]
pub fn push_char(s: &mut String, c: char) -> (u: ())
    ensures
        final(s)@ == old(s)@.push(c),
{
    s.push(c)
}

/// An ASCII upper-case letter mapped to lower case; any other character kept.
pub open spec fn lower_char(c: char) -> char {
    if 'A' <= c && c <= 'Z' {
        ((c as u8) + 32) as char
    } else {
        c
    }
}

/// An ASCII lower-case letter mapped to upper case; any other character kept.
pub open spec fn upper_char(c: char) -> char {
    if 'a' <= c && c <= 'z' {
        ((c as u8) - 32) as char
    } else {
        c
    }
}

/// A rename rule applied to an identifier under a naming target. The rules
/// here act uniformly on both targets; a target-sensitive convention would
/// branch on `target`.
pub open spec fn spec_apply_rule(rule: RenameRule, target: RenameTarget, id: Seq<char>) -> Seq<
    char,
> {
    match rule {
        RenameRule::Preserve => id,
        RenameRule::LowerAscii => id.map_values(|c: char| lower_char(c)),
        RenameRule::UpperAscii => id.map_values(|c: char| upper_char(c)),
    }
}

/// The record's externally visible type name.
pub open spec fn spec_type_name(d: RecordDescriptor) -> Seq<char> {
    match d.name_override {
        Option::Some(n) => n@,
        Option::None => spec_apply_rule(d.rename_rule, RenameTarget::Type, d.ident@),
    }
}

/// A field's externally visible name under the record's rename rule.
pub open spec fn spec_field_name(rule: RenameRule, f: FieldDescriptor) -> Seq<char> {
    match f.name_override {
        Option::Some(n) => n@,
        Option::None => spec_apply_rule(rule, RenameTarget::Field, f.ident@),
    }
}

fn lower_char_exec(c: char) -> (r: char)
    ensures
        r == lower_char(c),
{
    if 'A' <= c && c <= 'Z' {
        ((c as u8) + 32) as char
    } else {
        c
    }
}

fn upper_char_exec(c: char) -> (r: char)
    ensures
        r == upper_char(c),
{
    if 'a' <= c && c <= 'z' {
        ((c as u8) - 32) as char
    } else {
        c
    }
}

/// Applies a rename rule to an identifier under a naming target.
pub fn apply_rule(rule: RenameRule, target: RenameTarget, id: &String) -> (r: String)
    ensures
        r@ == spec_apply_rule(rule, target, id@),
{
    match rule {
        RenameRule::Preserve => id.clone(),
        RenameRule::LowerAscii => {
            let mut out = String::new();
            let st = id.as_str();
            let n = st.unicode_len();
            let mut i: usize = 0;
            while i < n
                invariant
                    n == id@.len(),
                    st@ == id@,
                    i <= n,
                    out@.len() == i,
                    forall|j: int| 0 <= j < i ==> out@[j] == lower_char(id@[j]),
                decreases n - i,
            {
                let c = lower_char_exec(st.get_char(i));
                push_char(&mut out, c);
                i += 1;
            }
            proof {
                assert(out@ =~= id@.map_values(|c: char| lower_char(c)));
            }
            out
        },
        RenameRule::UpperAscii => {
            let mut out = String::new();
            let st = id.as_str();
            let n = st.unicode_len();
            let mut i: usize = 0;
            while i < n
                invariant
                    n == id@.len(),
                    st@ == id@,
                    i <= n,
                    out@.len() == i,
                    forall|j: int| 0 <= j < i ==> out@[j] == upper_char(id@[j]),
                decreases n - i,
            {
                let c = upper_char_exec(st.get_char(i));
                push_char(&mut out, c);
                i += 1;
            }
            proof {
                assert(out@ =~= id@.map_values(|c: char| upper_char(c)));
            }
            out
        },
    }
}

/// Resolves the record's externally visible type name.
pub fn resolve_type_name(d: &RecordDescriptor) -> (r: String)
    ensures
        r@ == spec_type_name(*d),
{
    match &d.name_override {
        Option::Some(n) => n.clone(),
        Option::None => apply_rule(d.rename_rule, RenameTarget::Type, &d.ident),
    }
}

/// Resolves a field's externally visible name under the record's rename rule.
pub fn resolve_field_name(rule: RenameRule, f: &FieldDescriptor) -> (r: String)
    ensures
        r@ == spec_field_name(rule, *f),
{
    match &f.name_override {
        Option::Some(n) => n.clone(),
        Option::None => apply_rule(rule, RenameTarget::Field, &f.ident),
    }
}

} // verus!
