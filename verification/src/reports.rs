//! The names and messages under which the lints report their findings.
use vstd::prelude::*;
use vstd::string::*;
use crate::bit_mask::{BitMaskLint, Relation};
use crate::consts::BinOp;
use crate::loops::{ForArgLint, KvKind, KvMapLint, LoopLint, ReverseRange};
use crate::map_unit_fn::MapUnitKind;
use crate::mutex_atomic::{AtomicName, MutexLint};
use crate::text::{decimal, to_decimal};

verus! {

broadcast use vstd::string::group_string_axioms;

/// The text of the bit operation of a mask: `&`, `|` or `^`.
pub open spec fn bit_op_text(op: BinOp) -> Seq<char> {
    match op {
        BinOp::BitAnd => "&"@,
        BinOp::BitOr => "|"@,
        _ => "^"@,
    }
}

fn bit_op_str(op: BinOp) -> (r: &'static str)
    ensures
        r@ == bit_op_text(op),
{
    match op {
        BinOp::BitAnd => "&",
        BinOp::BitOr => "|",
        _ => "^",
    }
}

/// How a masked value relates to the value it is compared with.
pub open spec fn relation_text(r: Relation) -> Seq<char> {
    match r {
        Relation::NeverEqual => "can never be equal to"@,
        Relation::AlwaysLower => "will always be lower than"@,
        Relation::NeverLower => "will never be lower than"@,
        Relation::NeverHigher => "will never be higher than"@,
        Relation::AlwaysHigher => "will always be higher than"@,
    }
}

fn relation_str(r: Relation) -> (s: &'static str)
    ensures
        s@ == relation_text(r),
{
    match r {
        Relation::NeverEqual => "can never be equal to",
        Relation::AlwaysLower => "will always be lower than",
        Relation::NeverLower => "will never be lower than",
        Relation::NeverHigher => "will never be higher than",
        Relation::AlwaysHigher => "will always be higher than",
    }
}

/// The lint name and message of a bit mask finding, and its suggestion
/// with the help that introduces it; `subject` is the source text of the
/// masked operand, for the `trailing_zeros` suggestion.
pub open spec fn bit_mask_text(lint: BitMaskLint, subject: Seq<char>) -> (Seq<char>, Seq<char>, Option<(Seq<char>, Seq<char>)>) {
    match lint {
        BitMaskLint::Incompatible { bit_op, mask, value, relation } => (
            "bad_bit_mask"@,
            "incompatible bit mask: `_ "@ + bit_op_text(bit_op) + " "@ + decimal(mask as nat) + "` "@
                + relation_text(relation) + " `"@ + decimal(value as nat) + "`"@,
            None,
        ),
        BitMaskLint::AndWithZero => ("bad_bit_mask"@, "&-masking with zero"@, None),
        BitMaskLint::Ineffective { bit_op, mask, value } => (
            "ineffective_bit_mask"@,
            "ineffective bit mask: `x "@ + bit_op_text(bit_op) + " "@ + decimal(mask as nat) + "` compared to `"@
                + decimal(value as nat) + "`, is the same as x compared directly"@,
            None,
        ),
        BitMaskLint::Verbose { ones } => (
            "verbose_bit_mask"@,
            "bit mask could be simplified with a call to `trailing_zeros`"@,
            Some(("try"@, subject + ".trailing_zeros() >= "@ + decimal(ones as nat))),
        ),
    }
}

/// A suggestion's help and text as plain values.
pub open spec fn sugg_view(s: Option<(&'static str, String)>) -> Option<(Seq<char>, Seq<char>)> {
    match s {
        Some((h, t)) => Some((h@, t@)),
        None => None,
    }
}

/// The lint name and message of a bit mask finding, and its suggestion.
pub fn bit_mask_message(lint: &BitMaskLint, subject: &str) -> (r: (&'static str, String, Option<(&'static str, String)>))
    ensures
        (r.0@, r.1@, sugg_view(r.2)) == bit_mask_text(*lint, subject@),
{
    match *lint {
        BitMaskLint::Incompatible { bit_op, mask, value, relation } => {
            let mut m = String::from_str("incompatible bit mask: `_ ");
            m.append(bit_op_str(bit_op));
            m.append(" ");
            let ms = to_decimal(mask);
            m.append(ms.as_str());
            m.append("` ");
            m.append(relation_str(relation));
            m.append(" `");
            let vs = to_decimal(value);
            m.append(vs.as_str());
            m.append("`");
            ("bad_bit_mask", m, None)
        },
        BitMaskLint::AndWithZero => ("bad_bit_mask", String::from_str("&-masking with zero"), None),
        BitMaskLint::Ineffective { bit_op, mask, value } => {
            let mut m = String::from_str("ineffective bit mask: `x ");
            m.append(bit_op_str(bit_op));
            m.append(" ");
            let ms = to_decimal(mask);
            m.append(ms.as_str());
            m.append("` compared to `");
            let vs = to_decimal(value);
            m.append(vs.as_str());
            m.append("`, is the same as x compared directly");
            ("ineffective_bit_mask", m, None)
        },
        BitMaskLint::Verbose { ones } => {
            let mut sugg = String::from_str(subject);
            sugg.append(".trailing_zeros() >= ");
            let os = to_decimal(ones as u128);
            sugg.append(os.as_str());
            (
                "verbose_bit_mask",
                String::from_str("bit mask could be simplified with a call to `trailing_zeros`"),
                Some(("try", sugg)),
            )
        },
    }
}

/// The lint name, message and help of an `int_plus_one` finding, with the
/// recommended expression.
pub open spec fn int_plus_one_text(recommendation: Seq<char>) -> (Seq<char>, Seq<char>, Seq<char>) {
    (
        "int_plus_one"@,
        "Unnecessary `>= y + 1` or `x - 1 >=`"@,
        "change `>= y + 1` to `> y` as shown: "@ + recommendation,
    )
}

/// The lint name, message and help of an `int_plus_one` finding.
pub fn int_plus_one_message(recommendation: &str) -> (r: (&'static str, String, String))
    ensures
        (r.0@, r.1@, r.2@) == int_plus_one_text(recommendation@),
{
    let mut help = String::from_str("change `>= y + 1` to `> y` as shown: ");
    help.append(recommendation);
    ("int_plus_one", String::from_str("Unnecessary `>= y + 1` or `x - 1 >=`"), help)
}

/// The name of an atomic type.
pub open spec fn atomic_text(a: AtomicName) -> Seq<char> {
    match a {
        AtomicName::AtomicBool => "AtomicBool"@,
        AtomicName::AtomicUsize => "AtomicUsize"@,
        AtomicName::AtomicIsize => "AtomicIsize"@,
        AtomicName::AtomicPtr => "AtomicPtr"@,
    }
}

/// The lint name and message of a mutex finding.
pub open spec fn mutex_text(lint: MutexLint) -> (Seq<char>, Seq<char>) {
    let (name, atomic) = match lint {
        MutexLint::MutexInteger(a) => ("mutex_integer"@, a),
        MutexLint::MutexAtomic(a) => ("mutex_atomic"@, a),
    };
    (
        name,
        "Consider using an "@ + atomic_text(atomic)
            + " instead of a Mutex here. If you just want the locking behaviour and not the internal type, consider using Mutex<()>."@,
    )
}

/// The lint name and message of a mutex finding.
pub fn mutex_message(lint: &MutexLint) -> (r: (&'static str, String))
    ensures
        (r.0@, r.1@) == mutex_text(*lint),
{
    let (name, atomic) = match *lint {
        MutexLint::MutexInteger(a) => ("mutex_integer", a),
        MutexLint::MutexAtomic(a) => ("mutex_atomic", a),
    };
    let atomic_name = match atomic {
        AtomicName::AtomicBool => "AtomicBool",
        AtomicName::AtomicUsize => "AtomicUsize",
        AtomicName::AtomicIsize => "AtomicIsize",
        AtomicName::AtomicPtr => "AtomicPtr",
    };
    let mut m = String::from_str("Consider using an ");
    m.append(atomic_name);
    m.append(
        " instead of a Mutex here. If you just want the locking behaviour and not the internal type, consider using Mutex<()>.",
    );
    (name, m)
}

/// The lint name and message of a loop finding.
pub open spec fn loop_text(lint: LoopLint) -> (Seq<char>, Seq<char>) {
    match lint {
        LoopLint::NeverLoop => ("never_loop"@, "this loop never actually loops"@),
        LoopLint::EmptyLoop => (
            "empty_loop"@,
            "empty `loop {}` detected. You may want to either use `panic!()` or add `std::thread::sleep(..);` to the loop body."@,
        ),
        LoopLint::WhileLetLoop => ("while_let_loop"@, "this loop could be written as a `while let` loop"@),
        LoopLint::WhileLetOnIterator(_) => ("while_let_on_iterator"@, "this loop could be written as a `for` loop"@),
    }
}

/// The lint name and message of a loop finding.
pub fn loop_message(lint: LoopLint) -> (r: (&'static str, &'static str))
    ensures
        (r.0@, r.1@) == loop_text(lint),
{
    match lint {
        LoopLint::NeverLoop => ("never_loop", "this loop never actually loops"),
        LoopLint::EmptyLoop => (
            "empty_loop",
            "empty `loop {}` detected. You may want to either use `panic!()` or add `std::thread::sleep(..);` to the loop body.",
        ),
        LoopLint::WhileLetLoop => ("while_let_loop", "this loop could be written as a `while let` loop"),
        LoopLint::WhileLetOnIterator(_) => ("while_let_on_iterator", "this loop could be written as a `for` loop"),
    }
}

/// The message of a `reverse_range_loop` finding.
pub open spec fn reverse_range_text() -> Seq<char> {
    "this range is empty so this for loop will never run"@
}

/// The explanation of the suggestion of a `reverse_range_loop` finding.
pub open spec fn reverse_range_help() -> Seq<char> {
    "consider using the following if you are attempting to iterate over this range in reverse"@
}

/// The message of a `reverse_range_loop` finding, and the suggestion with
/// its explanation where the range is reversed.
pub fn reverse_range_message(lint: &ReverseRange) -> (r: (&'static str, Option<(&'static str, String)>))
    ensures
        r.0@ == reverse_range_text(),
        match *lint {
            ReverseRange::Reversed(s) => r.1 matches Some((h, t)) && h@ == reverse_range_help() && t@ == s@,
            ReverseRange::Empty => r.1 is None,
        },
{
    let message = "this range is empty so this for loop will never run";
    match lint {
        ReverseRange::Reversed(s) => (
            message,
            Some(("consider using the following if you are attempting to iterate over this range in reverse", s.clone())),
        ),
        ReverseRange::Empty => (message, None),
    }
}

/// The message and suggestion of a `for_kv_map` finding; `map` is the
/// source text of the map, in parentheses where it needs them.
pub open spec fn kv_map_text(kind: KvKind, method: Seq<char>, map: Seq<char>) -> (Seq<char>, Seq<char>) {
    let half = match kind {
        KvKind::Key => "key"@,
        KvKind::Value => "value"@,
    };
    ("you seem to want to iterate on a map's "@ + half + "s"@, map + "."@ + method + "()"@)
}

/// The message and suggestion of a `for_kv_map` finding.
pub fn kv_map_message(lint: &KvMapLint, map: &str) -> (r: (String, String))
    ensures
        (r.0@, r.1@) == kv_map_text(lint.kind, lint.method@, map@),
{
    let half = match lint.kind {
        KvKind::Key => "key",
        KvKind::Value => "value",
    };
    let mut m = String::from_str("you seem to want to iterate on a map's ");
    m.append(half);
    m.append("s");
    let mut sugg = String::from_str(map);
    sugg.append(".");
    sugg.append(lint.method.as_str());
    sugg.append("()");
    (m, sugg)
}

/// The message and note of a `unit_expr` finding.
pub fn unit_expr_message() -> (r: (&'static str, &'static str))
    ensures
        r.0@ == "This expression evaluates to the Unit type ()"@,
        r.1@ == "Consider removing the trailing semicolon"@,
{
    ("This expression evaluates to the Unit type ()", "Consider removing the trailing semicolon")
}

/// The message of a `serde_api_misuse` finding.
pub fn serde_message() -> (r: &'static str)
    ensures
        r@ == "you should not implement `visit_string` without also implementing `visit_str`"@,
{
    "you should not implement `visit_string` without also implementing `visit_str`"
}

/// The message of a `panic_params` finding.
pub fn panic_params_message() -> (r: &'static str)
    ensures
        r@ == "you probably are missing some parameter in your format string"@,
{
    "you probably are missing some parameter in your format string"
}

/// The lint name, message and suggestion of a finding on a `for` loop's
/// iterated expression; `object` is the source text of the receiver, `arg`
/// that of the iterated expression and `pat` that of the loop pattern.
pub open spec fn for_arg_text(lint: ForArgLint, object: Seq<char>, arg: Seq<char>, pat: Seq<char>) -> (
    Seq<char>,
    Seq<char>,
    Option<Seq<char>>,
) {
    match lint {
        ForArgLint::ExplicitIterLoop { mutable, .. } => (
            "explicit_iter_loop"@,
            "it is more idiomatic to loop over references to containers instead of using explicit iteration methods"@,
            Some(
                "&"@ + (if mutable {
                    "mut "@
                } else {
                    ""@
                }) + object,
            ),
        ),
        ForArgLint::ExplicitIntoIterLoop { .. } => (
            "explicit_into_iter_loop"@,
            "it is more idiomatic to loop over containers instead of using explicit iteration methods`"@,
            Some(object),
        ),
        ForArgLint::IterNextLoop => (
            "iter_next_loop"@,
            "you are iterating over `Iterator::next()` which is an Option; this will compile but is probably not what you want"@,
            None,
        ),
        ForArgLint::OverOption => (
            "for_loop_over_option"@,
            "for loop over `"@ + arg + "`, which is an `Option`. This is more readably written as an `if let` statement."@,
            Some(replacing_text(pat, arg, "Some"@)),
        ),
        ForArgLint::OverResult => (
            "for_loop_over_result"@,
            "for loop over `"@ + arg + "`, which is a `Result`. This is more readably written as an `if let` statement."@,
            Some(replacing_text(pat, arg, "Ok"@)),
        ),
    }
}

/// An optional text's view.
pub open spec fn opt_text(o: Option<String>) -> Option<Seq<char>> {
    match o {
        Some(t) => Some(t@),
        None => None,
    }
}

/// The suggestion to write `for pat in arg` as `if let variant(pat) = arg`.
pub open spec fn replacing_text(pat: Seq<char>, arg: Seq<char>, variant: Seq<char>) -> Seq<char> {
    "consider replacing `for "@ + pat + " in "@ + arg + "` with `if let "@ + variant + "("@ + pat + ") = "@ + arg
        + "`"@
}

/// The suggestion to write `for pat in arg` as `if let variant(pat) = arg`.
fn replacing(pat: &str, arg: &str, variant: &str) -> (r: String)
    ensures
        r@ == replacing_text(pat@, arg@, variant@),
{
    let mut s = String::from_str("consider replacing `for ");
    s.append(pat);
    s.append(" in ");
    s.append(arg);
    s.append("` with `if let ");
    s.append(variant);
    s.append("(");
    s.append(pat);
    s.append(") = ");
    s.append(arg);
    s.append("`");
    s
}

/// The lint name, message and suggestion of a finding on a `for` loop's
/// iterated expression.
pub fn for_arg_message(lint: ForArgLint, object: &str, arg: &str, pat: &str) -> (r: (&'static str, String, Option<String>))
    ensures
        (r.0@, r.1@, opt_text(r.2)) == for_arg_text(lint, object@, arg@, pat@),
{
    match lint {
        ForArgLint::ExplicitIterLoop { mutable, .. } => {
            let mut sugg = String::from_str("&");
            if mutable {
                sugg.append("mut ");
            }
            sugg.append(object);
            let msg = String::from_str(
                "it is more idiomatic to loop over references to containers instead of using explicit iteration methods",
            );
            proof {
                reveal_strlit("");
                let want = "&"@ + (if mutable { "mut "@ } else { ""@ }) + object@;
                if !mutable {
                    assert("&"@ + ""@ =~= "&"@);
                }
                assert(sugg@ =~= want);
            }
            ("explicit_iter_loop", msg, Some(sugg))
        },
        ForArgLint::ExplicitIntoIterLoop { .. } => {
            let sugg = String::from_str(object);
            (
                "explicit_into_iter_loop",
                String::from_str("it is more idiomatic to loop over containers instead of using explicit iteration methods`"),
                Some(sugg),
            )
        },
        ForArgLint::IterNextLoop => (
            "iter_next_loop",
            String::from_str(
                "you are iterating over `Iterator::next()` which is an Option; this will compile but is probably not what you want",
            ),
            None,
        ),
        ForArgLint::OverOption => {
            let mut m = String::from_str("for loop over `");
            m.append(arg);
            m.append("`, which is an `Option`. This is more readably written as an `if let` statement.");
            let sugg = replacing(pat, arg, "Some");
            ("for_loop_over_option", m, Some(sugg))
        },
        ForArgLint::OverResult => {
            let mut m = String::from_str("for loop over `");
            m.append(arg);
            m.append("`, which is a `Result`. This is more readably written as an `if let` statement.");
            let sugg = replacing(pat, arg, "Ok");
            ("for_loop_over_result", m, Some(sugg))
        },
    }
}

/// The message of an `explicit_counter_loop` finding on the counter `name`;
/// `arg` is the source text of the loop's iterated expression, `_` where
/// there is none.
pub open spec fn explicit_counter_text(name: Seq<char>, arg: Seq<char>) -> Seq<char> {
    "the variable `"@ + name + "` is used as a loop counter. Consider using `for ("@ + name + ", item) in "@ + arg
        + ".enumerate()` or similar iterators"@
}

/// The lint name and message of an `explicit_counter_loop` finding.
pub fn explicit_counter_message(name: &str, arg: &str) -> (r: (&'static str, String))
    ensures
        r.0@ == "explicit_counter_loop"@,
        r.1@ == explicit_counter_text(name@, arg@),
{
    let mut m = String::from_str("the variable `");
    m.append(name);
    m.append("` is used as a loop counter. Consider using `for (");
    m.append(name);
    m.append(", item) in ");
    m.append(arg);
    m.append(".enumerate()` or similar iterators");
    ("explicit_counter_loop", m)
}

/// The lint name of a `map` with a unit function, and the help of its
/// suggestion.
pub fn map_unit_fn_name(kind: MapUnitKind) -> (r: (&'static str, &'static str))
    ensures
        r.0@ == match kind {
            MapUnitKind::OptionMapUnitFn => "option_map_unit_fn"@,
            MapUnitKind::ResultMapUnitFn => "result_map_unit_fn"@,
        },
        r.1@ == "try this"@,
{
    match kind {
        MapUnitKind::OptionMapUnitFn => ("option_map_unit_fn", "try this"),
        MapUnitKind::ResultMapUnitFn => ("result_map_unit_fn", "try this"),
    }
}

} // verus!
