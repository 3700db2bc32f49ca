use rust_tools::bit_mask::{BitMaskLint, Relation};
use rust_tools::consts::BinOp;
use rust_tools::loops::{ForArgLint, KvKind, KvMapLint, LoopLint, ReverseRange};
use rust_tools::map_unit_fn::MapUnitKind;
use rust_tools::mutex_atomic::{AtomicName, MutexLint};
use rust_tools::reports::{
    bit_mask_message, explicit_counter_message, for_arg_message, int_plus_one_message, kv_map_message,
    loop_message, map_unit_fn_name, mutex_message, panic_params_message, reverse_range_message, serde_message,
    unit_expr_message,
};

#[test]
fn report_bit_mask_texts() {
    let l = BitMaskLint::Incompatible { bit_op: BinOp::BitAnd, mask: 2, value: 1, relation: Relation::NeverEqual };
    assert_eq!(bit_mask_message(&l, "x"), ("bad_bit_mask", "incompatible bit mask: `_ & 2` can never be equal to `1`".to_string(), None));
    assert_eq!(bit_mask_message(&BitMaskLint::AndWithZero, "x").1, "&-masking with zero");
    let i = BitMaskLint::Ineffective { bit_op: BinOp::BitOr, mask: 1, value: 2 };
    assert_eq!(
        bit_mask_message(&i, "x"),
        ("ineffective_bit_mask", "ineffective bit mask: `x | 1` compared to `2`, is the same as x compared directly".to_string(), None)
    );
    assert_eq!(
        bit_mask_message(&BitMaskLint::Verbose { ones: 4 }, "y"),
        (
            "verbose_bit_mask",
            "bit mask could be simplified with a call to `trailing_zeros`".to_string(),
            Some(("try", "y.trailing_zeros() >= 4".to_string()))
        )
    );
}

#[test]
fn report_mutex_texts() {
    assert_eq!(
        mutex_message(&MutexLint::MutexInteger(AtomicName::AtomicUsize)),
        (
            "mutex_integer",
            "Consider using an AtomicUsize instead of a Mutex here. If you just want the locking behaviour and not the internal type, consider using Mutex<()>.".to_string()
        )
    );
    assert_eq!(mutex_message(&MutexLint::MutexAtomic(AtomicName::AtomicBool)).0, "mutex_atomic");
}

#[test]
fn report_loop_texts() {
    assert_eq!(loop_message(LoopLint::NeverLoop), ("never_loop", "this loop never actually loops"));
    assert_eq!(loop_message(LoopLint::WhileLetOnIterator(3)).0, "while_let_on_iterator");
    let (m, s) = reverse_range_message(&ReverseRange::Reversed("(0..10).rev()".to_string()));
    assert_eq!(m, "this range is empty so this for loop will never run");
    assert_eq!(s.unwrap().1, "(0..10).rev()");
    assert!(reverse_range_message(&ReverseRange::Empty).1.is_none());
    let kv = KvMapLint { kind: KvKind::Value, kept: 1, method: "values".to_string(), receiver: 0 };
    assert_eq!(kv_map_message(&kv, "m"), ("you seem to want to iterate on a map's values".to_string(), "m.values()".to_string()));
    assert_eq!(
        for_arg_message(ForArgLint::ExplicitIterLoop { mutable: true, object: 0 }, "v", "v.iter_mut()", "x").2,
        Some("&mut v".to_string())
    );
    assert_eq!(
        for_arg_message(ForArgLint::ExplicitIterLoop { mutable: false, object: 0 }, "v", "v.iter()", "x").2,
        Some("&v".to_string())
    );
    let (name, msg, sugg) = for_arg_message(ForArgLint::OverResult, "", "r", "x");
    assert_eq!(name, "for_loop_over_result");
    assert_eq!(msg, "for loop over `r`, which is a `Result`. This is more readably written as an `if let` statement.");
    assert_eq!(sugg, Some("consider replacing `for x in r` with `if let Ok(x) = r`".to_string()));
    assert_eq!(for_arg_message(ForArgLint::IterNextLoop, "", "", "").2, None);
    assert_eq!(
        explicit_counter_message("count", "v"),
        (
            "explicit_counter_loop",
            "the variable `count` is used as a loop counter. Consider using `for (count, item) in v.enumerate()` or similar iterators".to_string()
        )
    );
}

#[test]
fn report_other_texts() {
    assert_eq!(
        int_plus_one_message("x > y"),
        ("int_plus_one", "Unnecessary `>= y + 1` or `x - 1 >=`".to_string(), "change `>= y + 1` to `> y` as shown: x > y".to_string())
    );
    assert_eq!(unit_expr_message().1, "Consider removing the trailing semicolon");
    assert!(serde_message().contains("visit_str"));
    assert!(panic_params_message().starts_with("you probably"));
    assert_eq!(map_unit_fn_name(MapUnitKind::ResultMapUnitFn), ("result_map_unit_fn", "try this"));
}
