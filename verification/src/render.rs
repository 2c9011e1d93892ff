//! A string rendering of dynamic values, used by the schema emitter to
//! record a field's default value: integers in decimal, strings quoted,
//! objects as comma-separated quoted keys and rendered values in braces.

use vstd::prelude::*;
use vstd::string::StringExecFns;

use crate::names::push_char;
use crate::value::Entry;
use crate::value::ValModel;
use crate::value::Value;
use crate::value::entries_model;
use crate::value::lemma_entries_model;

verus! {

/// The decimal digit character of a value below ten.
pub open spec fn digit_char(n: int) -> char {
    if n == 0 {
        '0'
    } else if n == 1 {
        '1'
    } else if n == 2 {
        '2'
    } else if n == 3 {
        '3'
    } else if n == 4 {
        '4'
    } else if n == 5 {
        '5'
    } else if n == 6 {
        '6'
    } else if n == 7 {
        '7'
    } else if n == 8 {
        '8'
    } else {
        '9'
    }
}

/// The decimal digits of a natural number, most significant first.
pub open spec fn spec_digits(n: nat) -> Seq<char>
    decreases n,
{
    if n < 10 {
        seq![digit_char(n as int)]
    } else {
        spec_digits(n / 10).push(digit_char((n % 10) as int))
    }
}

/// The decimal rendering of an integer.
pub open spec fn spec_render_int(n: int) -> Seq<char> {
    if n < 0 {
        seq!['-'] + spec_digits((-n) as nat)
    } else {
        spec_digits(n as nat)
    }
}

/// The rendering of a dynamic value.
pub open spec fn spec_render(v: ValModel) -> Seq<char>
    decreases v,
{
    match v {
        ValModel::Null => "null"@,
        ValModel::BoolVal(b) => if b {
            "true"@
        } else {
            "false"@
        },
        ValModel::IntVal(n) => spec_render_int(n as int),
        ValModel::StrVal(s) => seq!['"'] + s + seq!['"'],
        ValModel::ObjVal(es) => seq!['{'] + spec_render_entries(es) + seq!['}'],
    }
}

/// The rendering of an object's entries: quoted key, a colon, the rendered
/// value, with commas between entries.
pub open spec fn spec_render_entries(es: Seq<(Seq<char>, ValModel)>) -> Seq<char>
    decreases es,
{
    if es.len() == 0 {
        Seq::empty()
    } else {
        let e0 = seq!['"'] + es[0].0 + seq!['"', ':'] + spec_render(es[0].1);
        if es.len() == 1 {
            e0
        } else {
            e0 + seq![','] + spec_render_entries(es.skip(1))
        }
    }
}

fn digit_exec(m: u64) -> (c: char)
    requires
        m < 10,
    ensures
        c == digit_char(m as int),
{
    if m == 0 {
        '0'
    } else if m == 1 {
        '1'
    } else if m == 2 {
        '2'
    } else if m == 3 {
        '3'
    } else if m == 4 {
        '4'
    } else if m == 5 {
        '5'
    } else if m == 6 {
        '6'
    } else if m == 7 {
        '7'
    } else if m == 8 {
        '8'
    } else {
        '9'
    }
}

fn render_nat_into(s: &mut String, m: u64)
    ensures
        final(s)@ == old(s)@ + spec_digits(m as nat),
    decreases m,
{
    if m < 10 {
        let c = digit_exec(m);
        push_char(s, c);
        proof {
            assert(old(s)@.push(c) =~= old(s)@ + spec_digits(m as nat));
        }
    } else {
        render_nat_into(s, m / 10);
        let c = digit_exec(m % 10);
        push_char(s, c);
        proof {
            assert((old(s)@ + spec_digits((m / 10) as nat)).push(c) =~= old(s)@ + spec_digits(
                m as nat,
            ));
        }
    }
}

fn render_int_into(s: &mut String, n: i64)
    ensures
        final(s)@ == old(s)@ + spec_render_int(n as int),
{
    if n < 0 {
        let ghost before = s@;
        s.append("-");
        proof {
            reveal_strlit("-");
            assert("-"@ =~= seq!['-']);
        }
        let m: u64 = (-(n as i128)) as u64;
        render_nat_into(s, m);
        proof {
            assert(before + "-"@ + spec_digits(m as nat) =~= before + spec_render_int(n as int));
        }
    } else {
        render_nat_into(s, n as u64);
    }
}

/// Renders a dynamic value into a string.
pub fn render(v: &Value) -> (r: String)
    ensures
        r@ == spec_render(v@),
{
    let mut s = String::new();
    render_into(&mut s, v);
    proof {
        assert(Seq::<char>::empty() + spec_render(v@) =~= spec_render(v@));
    }
    s
}

fn render_into(s: &mut String, v: &Value)
    ensures
        final(s)@ == old(s)@ + spec_render(v@),
    decreases v, 0nat,
{
    match v {
        Value::Null => s.append("null"),
        Value::BoolVal(b) => if *b {
            s.append("true")
        } else {
            s.append("false")
        },
        Value::IntVal(n) => render_int_into(s, *n),
        Value::StrVal(st) => {
            push_char(s, '"');
            s.append(st.as_str());
            push_char(s, '"');
            proof {
                assert(old(s)@.push('"') + st@ + seq!['"'] =~= old(s)@ + spec_render(v@));
            }
        },
        Value::ObjVal(es) => {
            push_char(s, '{');
            render_entries_into(s, es, 0);
            push_char(s, '}');
            proof {
                assert(entries_model(es@).skip(0) =~= entries_model(es@));
                assert(old(s)@.push('{') + spec_render_entries(entries_model(es@)) + seq!['}']
                    =~= old(s)@ + spec_render(v@));
            }
        },
    }
}

fn render_entries_into(s: &mut String, es: &Vec<Entry>, i: usize)
    requires
        i <= es@.len(),
    ensures
        final(s)@ == old(s)@ + spec_render_entries(entries_model(es@).skip(i as int)),
    decreases es@, (es@.len() - i as int),
{
    proof {
        lemma_entries_model(es@);
    }
    let ghost em = entries_model(es@);
    if i < es.len() {
        proof {
            assert(em.skip(i as int)[0] == em[i as int]);
            assert(em.skip(i as int).skip(1) =~= em.skip(i + 1));
            assert(decreases_to!(es@ => es@[i as int]));
        }
        push_char(s, '"');
        s.append(es[i].key.as_str());
        push_char(s, '"');
        push_char(s, ':');
        render_into(s, &es[i].val);
        let ghost mid = s@;
        proof {
            assert(mid =~= old(s)@ + (seq!['"'] + em[i as int].0 + seq!['"', ':'] + spec_render(
                em[i as int].1,
            )));
        }
        if i + 1 < es.len() {
            push_char(s, ',');
            render_entries_into(s, es, i + 1);
            proof {
                assert(final(s)@ =~= old(s)@ + spec_render_entries(em.skip(i as int)));
            }
        } else {
            proof {
                assert(em.skip(i as int).len() == 1);
                assert(final(s)@ =~= old(s)@ + spec_render_entries(em.skip(i as int)));
            }
        }
    } else {
        proof {
            assert(em.skip(i as int) =~= Seq::<(Seq<char>, ValModel)>::empty());
            assert(final(s)@ =~= old(s)@ + spec_render_entries(em.skip(i as int)));
        }
    }
}

} // verus!
