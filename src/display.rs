use vstd::prelude::*;
use crate::heap::{ArrayHeap, ArrayView};
use crate::instance::Instance;
use crate::string_pool::StringPool;
use crate::types::full_name;

verus! {

/// The decimal digit `d`.
pub open spec fn digit_char(d: int) -> char {
    if d == 0 {
        '0'
    } else if d == 1 {
        '1'
    } else if d == 2 {
        '2'
    } else if d == 3 {
        '3'
    } else if d == 4 {
        '4'
    } else if d == 5 {
        '5'
    } else if d == 6 {
        '6'
    } else if d == 7 {
        '7'
    } else if d == 8 {
        '8'
    } else {
        '9'
    }
}

/// Decimal digits of `n`, most significant first, without leading zeros.
pub open spec fn digits(n: nat) -> Seq<char>
    decreases n,
{
    if n < 10 {
        seq![digit_char(n as int)]
    } else {
        digits(n / 10).push(digit_char((n % 10) as int))
    }
}

/// Decimal text of `v`, with a leading `-` when negative.
pub open spec fn int_text(v: int) -> Seq<char> {
    if v < 0 {
        seq!['-'] + digits((-v) as nat)
    } else {
        digits(v as nat)
    }
}

/// The display form of a value. Arrays nested deeper than `depth` are shown
/// as `[...]`; a machine renders with a depth equal to its number of arrays,
/// which no chain of distinct nested arrays exceeds.
pub open spec fn display(heap: Seq<ArrayView>, strings: Seq<Seq<char>>, x: Instance, depth: nat) -> Seq<char>
    decreases depth, 0int,
{
    match x {
        Instance::Bool(b) => if b {
            "true"@
        } else {
            "false"@
        },
        Instance::Byte(v) => int_text(v as int),
        Instance::UByte(v) => int_text(v as int),
        Instance::Int16(v) => int_text(v as int),
        Instance::UInt16(v) => int_text(v as int),
        Instance::Int32(v) => int_text(v as int),
        Instance::UInt32(v) => int_text(v as int),
        Instance::Int64(v) => int_text(v as int),
        Instance::UInt64(v) => int_text(v as int),
        Instance::Int128(v) => int_text(v as int),
        Instance::UInt128(v) => int_text(v as int),
        Instance::Char(c) => seq!['\'', c, '\''],
        Instance::Str(h) => if h < strings.len() {
            "\""@ + strings[h as int] + "\""@
        } else {
            "<dangling>"@
        },
        Instance::Array(h) => if h < heap.len() {
            if depth == 0 {
                "[...]"@
            } else {
                full_name(heap[h as int].elem) + "["@ + display_items(
                    heap,
                    strings,
                    heap[h as int].items,
                    (depth - 1) as nat,
                ) + "]"@
            }
        } else {
            "<dangling>"@
        },
        Instance::Func(_) => "<function>"@,
        Instance::Void => "void"@,
    }
}

/// The display forms of `items`, separated by `, `.
pub open spec fn display_items(heap: Seq<ArrayView>, strings: Seq<Seq<char>>, items: Seq<Instance>, depth: nat) -> Seq<char>
    decreases depth, items.len(),
{
    if items.len() == 0 {
        Seq::empty()
    } else if items.len() == 1 {
        display(heap, strings, items[0], depth)
    } else {
        display_items(heap, strings, items.drop_last(), depth) + ", "@ + display(
            heap,
            strings,
            items.last(),
            depth,
        )
    }
}

/// Relies on std's `String::push`: appends one character.
#[verifier::external_body]
pub(crate) fn push_char(s: &mut String, c: char)
    ensures
        final(s)@ == old(s)@.push(c),
{
    s.push(c)
}

fn digit(d: u128) -> (r: char)
    requires
        d < 10,
    ensures
        r == digit_char(d as int),
{
    if d == 0 {
        '0'
    } else if d == 1 {
        '1'
    } else if d == 2 {
        '2'
    } else if d == 3 {
        '3'
    } else if d == 4 {
        '4'
    } else if d == 5 {
        '5'
    } else if d == 6 {
        '6'
    } else if d == 7 {
        '7'
    } else if d == 8 {
        '8'
    } else {
        '9'
    }
}

fn push_digits(out: &mut String, n: u128)
    ensures
        final(out)@ == old(out)@ + digits(n as nat),
    decreases n,
{
    if n >= 10 {
        push_digits(out, n / 10);
    }
    push_char(out, digit(n % 10));
    proof {
        if n < 10 {
            assert(final(out)@ =~= old(out)@ + digits(n as nat));
        }
    }
}

/// Appends the decimal text of a signed value.
fn push_signed(out: &mut String, v: i128)
    ensures
        final(out)@ == old(out)@ + int_text(v as int),
{
    if v < 0 {
        push_char(out, '-');
        let magnitude: u128 = if v == i128::MIN {
            170141183460469231731687303715884105728u128
        } else {
            (-v) as u128
        };
        push_digits(out, magnitude);
        proof {
            assert(final(out)@ =~= old(out)@ + int_text(v as int));
        }
    } else {
        push_digits(out, v as u128);
    }
}

/// Appends the decimal text of an unsigned value.
pub(crate) fn push_unsigned(out: &mut String, v: u128)
    ensures
        final(out)@ == old(out)@ + int_text(v as int),
{
    push_digits(out, v);
}

/// Appends the display form of `x` to `out`.
pub fn push_display(out: &mut String, heap: &ArrayHeap, strings: &StringPool, x: Instance, depth: usize)
    ensures
        final(out)@ == old(out)@ + display(heap@, strings@, x, depth as nat),
    decreases depth, 0int,
{
    match x {
        Instance::Bool(b) => {
            if b {
                out.append("true");
            } else {
                out.append("false");
            }
        },
        Instance::Byte(v) => {
            push_signed(out, v as i128);
        },
        Instance::UByte(v) => {
            push_unsigned(out, v as u128);
        },
        Instance::Int16(v) => {
            push_signed(out, v as i128);
        },
        Instance::UInt16(v) => {
            push_unsigned(out, v as u128);
        },
        Instance::Int32(v) => {
            push_signed(out, v as i128);
        },
        Instance::UInt32(v) => {
            push_unsigned(out, v as u128);
        },
        Instance::Int64(v) => {
            push_signed(out, v as i128);
        },
        Instance::UInt64(v) => {
            push_unsigned(out, v as u128);
        },
        Instance::Int128(v) => {
            push_signed(out, v);
        },
        Instance::UInt128(v) => {
            push_unsigned(out, v);
        },
        Instance::Char(c) => {
            push_char(out, '\'');
            push_char(out, c);
            push_char(out, '\'');
        },
        Instance::Str(h) => {
            if h < strings.len() {
                out.append("\"");
                out.append(strings.content(h).as_str());
                out.append("\"");
            } else {
                out.append("<dangling>");
            }
        },
        Instance::Array(h) => {
            if h < heap.len() {
                if depth == 0 {
                    out.append("[...]");
                } else {
                    let name = heap.elem_type(h).get_canonical_name();
                    out.append(name.as_str());
                    out.append("[");
                    push_display_items(out, heap, strings, heap.items(h), depth - 1);
                    out.append("]");
                }
            } else {
                out.append("<dangling>");
            }
        },
        Instance::Func(_) => {
            out.append("<function>");
        },
        Instance::Void => {
            out.append("void");
        },
    }
    proof {
        assert(final(out)@ =~= old(out)@ + display(heap@, strings@, x, depth as nat));
    }
}

/// Appends the display forms of `items`, separated by `, `.
fn push_display_items(out: &mut String, heap: &ArrayHeap, strings: &StringPool, items: &Vec<Instance>, depth: usize)
    ensures
        final(out)@ == old(out)@ + display_items(heap@, strings@, items@, depth as nat),
    decreases depth, items@.len(),
{
    let ghost start = out@;
    let n = items.len();
    let mut i: usize = 0;
    while i < n
        invariant
            n == items@.len(),
            i <= n,
            out@ == start + display_items(heap@, strings@, items@.subrange(0, i as int), depth as nat),
        decreases n - i,
    {
        if i > 0 {
            out.append(", ");
        }
        push_display(out, heap, strings, items[i], depth);
        i = i + 1;
        proof {
            let s = items@.subrange(0, i as int);
            assert(s.drop_last() =~= items@.subrange(0, i - 1));
            assert(s.last() == items@[i - 1]);
            if i == 1 {
                assert(s[0] == items@[0]);
                assert(items@.subrange(0, 0) =~= Seq::<Instance>::empty());
            }
        }
    }
    proof {
        assert(items@.subrange(0, n as int) =~= items@);
    }
}

/// The display form of `x`, with arrays nested at most as deep as there
/// are arrays.
pub fn display_form(heap: &ArrayHeap, strings: &StringPool, x: Instance) -> (r: String)
    ensures
        r@ == display(heap@, strings@, x, heap@.len()),
{
    let mut out = String::new();
    push_display(&mut out, heap, strings, x, heap.len());
    proof {
        assert(out@ =~= display(heap@, strings@, x, heap@.len()));
    }
    out
}

} // verus!
