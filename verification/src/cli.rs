//! Command-line arguments of the daemon commands: flags, options with a
//! value, positional arguments, and integer arguments.
use vstd::prelude::*;

use crate::paste::{parsed_u64, parse_u64, without_plus};
use crate::text::{all_digits, chars_eq, chars_of, digits_value, has_prefix, starts_with, string_of};

verus! {

/// The views of a list of arguments.
pub open spec fn args_view(args: Seq<String>) -> Seq<Seq<char>> {
    args.map_values(|a: String| a@)
}

/// Whether `name` is among the arguments.
pub fn flag(args: &Vec<String>, name: &str) -> (r: bool)
    ensures
        r == args_view(args@).contains(name@),
{
    let n = chars_of(name);
    let mut i: usize = 0;
    while i < args.len()
        invariant
            i <= args@.len(),
            n@ == name@,
            forall|j: int| 0 <= j < i ==> (#[trigger] args@[j])@ != name@,
        decreases args.len() - i,
    {
        if chars_eq(&chars_of(args[i].as_str()), &n) {
            assert(args_view(args@)[i as int] == name@);
            return true;
        }
        i = i + 1;
    }
    assert(!args_view(args@).contains(name@)) by {
        if args_view(args@).contains(name@) {
            let j = choose|j: int| 0 <= j < args_view(args@).len() && args_view(args@)[j] == name@;
            assert(args@[j]@ == name@);
        }
    }
    false
}

/// The argument after the first `name`, if there is one.
pub open spec fn option_after(args: Seq<Seq<char>>, name: Seq<char>) -> Option<Seq<char>> {
    let i = args.index_of_first(name);
    match i {
        Some(k) => if k + 1 < args.len() {
            Some(args[k + 1])
        } else {
            None
        },
        None => None,
    }
}

/// The value given after the option `name` (its first occurrence).
pub fn option_value<'a>(args: &'a Vec<String>, name: &str) -> (r: Option<&'a str>)
    ensures
        match r {
            Some(v) => option_after(args_view(args@), name@) == Some(v@),
            None => option_after(args_view(args@), name@) is None,
        },
{
    let ghost view = args_view(args@);
    let n = chars_of(name);
    let mut i: usize = 0;
    while i < args.len()
        invariant
            i <= args@.len(),
            n@ == name@,
            view == args_view(args@),
            forall|j: int| 0 <= j < i ==> view[j] != name@,
        decreases args.len() - i,
    {
        if chars_eq(&chars_of(args[i].as_str()), &n) {
            assert(view[i as int] == name@);
            proof {
                view.index_of_first_ensures(name@);
                assert(view.index_of_first(name@) == Some(i as int));
            }
            if i + 1 < args.len() {
                assert(view[i + 1] == args@[i + 1]@);
                return Some(args[i + 1].as_str());
            }
            return None;
        }
        assert(view[i as int] == args@[i as int]@);
        i = i + 1;
    }
    proof {
        view.index_of_first_ensures(name@);
    }
    None
}

/// The arguments that are not options (do not start with `--`).
pub open spec fn positionals(args: Seq<Seq<char>>) -> Seq<Seq<char>>
    decreases args.len(),
{
    if args.len() == 0 {
        Seq::empty()
    } else if has_prefix(args.last(), "--"@) {
        positionals(args.drop_last())
    } else {
        positionals(args.drop_last()).push(args.last())
    }
}

/// The `index`-th argument that does not start with `--`.
pub fn positional<'a>(args: &'a Vec<String>, index: usize) -> (r: Option<&'a str>)
    ensures
        match r {
            Some(v) => index < positionals(args_view(args@)).len() && positionals(
                args_view(args@),
            )[index as int] == v@,
            None => index >= positionals(args_view(args@)).len(),
        },
{
    let ghost view = args_view(args@);
    let dashes = chars_of("--");
    let mut seen: usize = 0;
    let mut i: usize = 0;
    assert(view.take(0) =~= Seq::<Seq<char>>::empty());
    while i < args.len()
        invariant
            i <= args@.len(),
            view == args_view(args@),
            dashes@ == "--"@,
            seen == positionals(view.take(i as int)).len(),
            seen <= index,
        decreases args.len() - i,
    {
        let a = chars_of(args[i].as_str());
        assert(view.take(i + 1).drop_last() =~= view.take(i as int));
        assert(view.take(i + 1).last() == view[i as int]);
        assert(a@ == view[i as int]);
        assert(view[i as int] == args@[i as int]@);
        if !starts_with(&a, &dashes) {
            assert(positionals(view.take(i + 1)) == positionals(view.take(i as int)).push(
                view[i as int],
            ));
            if seen == index {
                proof {
                    lemma_positionals_prefix(view, i as int + 1);
                    assert(positionals(view.take(i + 1))[index as int] == view[i as int]);
                }
                return Some(args[i].as_str());
            }
            seen = seen + 1;
        } else {
            assert(positionals(view.take(i + 1)) == positionals(view.take(i as int)));
        }
        i = i + 1;
    }
    assert(view.take(i as int) =~= view);
    None
}

/// The positionals of a prefix are a prefix of the positionals.
proof fn lemma_positionals_prefix(view: Seq<Seq<char>>, k: int)
    requires
        0 <= k <= view.len(),
    ensures
        positionals(view.take(k)).len() <= positionals(view).len(),
        forall|j: int|
            0 <= j < positionals(view.take(k)).len() ==> positionals(view)[j] == #[trigger] positionals(
                view.take(k),
            )[j],
    decreases view.len() - k,
{
    if k < view.len() {
        lemma_positionals_prefix(view, k + 1);
        assert(view.take(k + 1).drop_last() =~= view.take(k));
        assert(view.take(k + 1).last() == view[k]);
        let pk = positionals(view.take(k));
        let pk1 = positionals(view.take(k + 1));
        assert(pk1 == (if has_prefix(view[k], "--"@) {
            pk
        } else {
            pk.push(view[k])
        }));
        assert forall|j: int| 0 <= j < pk.len() implies positionals(view)[j] == #[trigger] pk[j] by {
            assert(pk1[j] == pk[j]);
        }
    } else {
        assert(view.take(k) =~= view);
    }
}

/// What `str::parse::<i64>` gives: an optional sign, then digits whose
/// value fits.
pub open spec fn parsed_i64(s: Seq<char>) -> Option<i64> {
    if s.len() > 0 && s[0] == '-' {
        let d = s.skip(1);
        if d.len() > 0 && all_digits(d) && digits_value(d) <= 0x8000_0000_0000_0000 {
            Some((-(digits_value(d) as int)) as i64)
        } else {
            None
        }
    } else {
        match parsed_u64(s) {
            Some(v) => if v <= i64::MAX {
                Some(v as i64)
            } else {
                None
            },
            None => None,
        }
    }
}

/// Reads a signed 64-bit decimal, as `str::parse::<i64>` does.
pub fn parse_i64(s: &str) -> (r: Option<i64>)
    ensures
        r == parsed_i64(s@),
{
    let v = chars_of(s);
    if v.len() > 0 && v[0] == '-' {
        let rest = string_of(&crate::text::copy_range(&v, 1, v.len()));
        assert(rest@ =~= s@.skip(1));
        proof {
            assert(without_plus(rest@) == rest@ || (rest@.len() > 0 && rest@[0] == '+'));
        }
        if rest.unicode_len() > 0 && v[1] == '+' {
            assert(!all_digits(s@.skip(1))) by {
                assert(s@.skip(1)[0] == '+');
            }
            return None;
        }
        assert(without_plus(rest@) == rest@);
        match parse_u64(rest.as_str()) {
            Some(m) => if m <= 0x8000_0000_0000_0000 {
                if m == 0x8000_0000_0000_0000 {
                    Some(i64::MIN)
                } else {
                    Some(-(m as i64))
                }
            } else {
                None
            },
            None => None,
        }
    } else {
        match parse_u64(s) {
            Some(m) => if m <= i64::MAX as u64 {
                Some(m as i64)
            } else {
                None
            },
            None => None,
        }
    }
}

} // verus!
