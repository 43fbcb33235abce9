use testme::expand::{
    get_all_linkme_idents, is_test_fn, testme, wrap_linkme_functions, wrap_test_fn, AttrKind,
    FnModel, FnRewrite, GeneratedItem, HookSlot, ItemModel, OutputItem, TestWrap,
};

fn model(name: &str, is_async: bool, attrs: Vec<AttrKind>) -> FnModel {
    FnModel { name: name.to_string(), is_async, attrs }
}

fn path(name: &str) -> AttrKind {
    AttrKind::Path(Some(name.to_string()))
}

#[test]
fn test_attribute_makes_a_test() {
    assert!(is_test_fn(&model("t", false, vec![path("test")])));
    assert!(is_test_fn(&model("t", false, vec![path("test"), path("should_panic")])));
    assert!(is_test_fn(&model("t", false, vec![path("should_panic"), path("test")])));
    assert!(is_test_fn(&model("t", false, vec![AttrKind::Path(None), path("test")])));
}

#[test]
fn no_test_attribute_no_test() {
    assert!(!is_test_fn(&model("t", false, vec![])));
    assert!(!is_test_fn(&model("t", false, vec![path("inline")])));
    assert!(!is_test_fn(&model("t", false, vec![AttrKind::Path(None)])));
}

#[test]
fn attribute_with_arguments_before_test_is_skipped() {
    // A doc comment or `#[should_panic(expected = "..")]` before `#[test]`.
    assert!(is_test_fn(&model("t", false, vec![AttrKind::WithArgs, path("test")])));
    assert!(is_test_fn(&model("t", false, vec![path("test"), AttrKind::WithArgs])));
    assert!(is_test_fn(&model(
        "t",
        true,
        vec![AttrKind::WithArgs, path("should_panic"), AttrKind::WithArgs, path("test")]
    )));
    assert!(!is_test_fn(&model("t", false, vec![AttrKind::WithArgs, AttrKind::WithArgs])));
    assert_eq!(
        wrap_test_fn(&model("t", true, vec![AttrKind::WithArgs, path("test")])),
        TestWrap::Async
    );
}

#[test]
fn tests_are_wrapped_by_kind() {
    assert_eq!(wrap_test_fn(&model("t", false, vec![path("test")])), TestWrap::Blocking);
    assert_eq!(wrap_test_fn(&model("t", true, vec![path("test")])), TestWrap::Async);
    assert_eq!(wrap_test_fn(&model("t", true, vec![])), TestWrap::Untouched);
}

#[test]
fn hooks_are_found_by_name() {
    assert_eq!(wrap_linkme_functions(&model("before_all", false, vec![])), Some(HookSlot::BeforeAll));
    assert_eq!(wrap_linkme_functions(&model("before_each", true, vec![])), Some(HookSlot::BeforeEach));
    assert_eq!(wrap_linkme_functions(&model("after_all", false, vec![])), Some(HookSlot::AfterAll));
    assert_eq!(wrap_linkme_functions(&model("after_each", false, vec![])), Some(HookSlot::AfterEach));
    assert_eq!(wrap_linkme_functions(&model("before", false, vec![])), None);
    assert_eq!(wrap_linkme_functions(&model("Before_all", false, vec![])), None);
}

#[test]
fn only_each_hooks_need_send() {
    assert!(HookSlot::BeforeEach.needs_send());
    assert!(HookSlot::AfterEach.needs_send());
    assert!(!HookSlot::BeforeAll.needs_send());
    assert!(!HookSlot::AfterAll.needs_send());
}

#[test]
fn slot_names_carry_the_hash_in_decimal() {
    let idents = get_all_linkme_idents(0);
    assert_eq!(idents.before_each, "BEFORE_EACH_0");
    assert_eq!(idents.before_all, "BEFORE_ALL_0");
    assert_eq!(idents.after_each, "AFTER_EACH_0");
    assert_eq!(idents.after_all, "AFTER_ALL_0");
    assert_eq!(get_all_linkme_idents(7).before_all, "BEFORE_ALL_7");
    assert_eq!(get_all_linkme_idents(10).after_each, "AFTER_EACH_10");
    assert_eq!(get_all_linkme_idents(u32::MAX).after_all, "AFTER_ALL_4294967295");
    assert_eq!(idents.ident_for(HookSlot::AfterEach), "AFTER_EACH_0");
}

#[test]
fn slot_names_differ_by_slot() {
    let idents = get_all_linkme_idents(12345);
    let all = [
        &idents.before_each,
        &idents.before_all,
        &idents.after_each,
        &idents.after_all,
    ];
    for i in 0..4 {
        for j in 0..4 {
            assert_eq!(i == j, all[i] == all[j]);
        }
    }
}

#[test]
fn slot_names_differ_across_hashes() {
    let a = get_all_linkme_idents(12);
    let b = get_all_linkme_idents(123);
    let names_a = [&a.before_each, &a.before_all, &a.after_each, &a.after_all];
    let names_b = [&b.before_each, &b.before_all, &b.after_each, &b.after_all];
    for x in names_a.iter() {
        for y in names_b.iter() {
            assert_ne!(x, y);
        }
    }
}

#[test]
fn module_without_body_is_left_alone() {
    let plan = testme(&None);
    assert!(plan.items.is_none());
    assert_eq!(plan.hash, 1);
    assert_eq!(plan.idents.before_all, "BEFORE_ALL_1");
}

#[test]
fn empty_module_gets_the_prelude() {
    let plan = testme(&Some(vec![]));
    assert_eq!(plan.hash, 1);
    let out = plan.items.unwrap();
    assert_eq!(
        out,
        vec![
            OutputItem::Generated(GeneratedItem::TestHandles),
            OutputItem::Generated(GeneratedItem::RunAllLock),
            OutputItem::Generated(GeneratedItem::HookSlice(HookSlot::BeforeEach)),
            OutputItem::Generated(GeneratedItem::HookSlice(HookSlot::BeforeAll)),
            OutputItem::Generated(GeneratedItem::HookSlice(HookSlot::AfterEach)),
            OutputItem::Generated(GeneratedItem::HookSlice(HookSlot::AfterAll)),
            OutputItem::Generated(GeneratedItem::SubmitTestInternal),
        ]
    );
}

#[test]
fn items_keep_their_order_after_the_prelude() {
    let content = vec![
        ItemModel::Fn(model("a", true, vec![path("test")])),
        ItemModel::Other,
        ItemModel::Fn(model("before_each", false, vec![])),
    ];
    let plan = testme(&Some(content));
    // Adler-32 of "abefore_each".
    assert_eq!(plan.hash, testme::hash::get_hash("abefore_each"));
    let out = plan.items.unwrap();
    assert_eq!(out.len(), 10);
    assert_eq!(
        out[7],
        OutputItem::Original {
            index: 0,
            rewrite: Some(FnRewrite { test: TestWrap::Async, hook: None }),
        }
    );
    assert_eq!(out[8], OutputItem::Original { index: 1, rewrite: None });
    assert_eq!(
        out[9],
        OutputItem::Original {
            index: 2,
            rewrite: Some(FnRewrite { test: TestWrap::Untouched, hook: Some(HookSlot::BeforeEach) }),
        }
    );
}

#[test]
fn same_names_same_slots() {
    let a = vec![
        ItemModel::Fn(model("ab", false, vec![])),
        ItemModel::Fn(model("c", false, vec![path("test")])),
    ];
    let b = vec![
        ItemModel::Other,
        ItemModel::Fn(model("a", true, vec![])),
        ItemModel::Fn(model("bc", false, vec![])),
    ];
    let pa = testme(&Some(a));
    let pb = testme(&Some(b));
    assert_eq!(pa.hash, pb.hash);
    assert_eq!(pa.idents.before_all, pb.idents.before_all);
}

#[test]
fn hook_that_is_also_a_test_is_wrapped_both_ways() {
    let plan = testme(&Some(vec![ItemModel::Fn(model("after_each", false, vec![path("test")]))]));
    assert_eq!(
        plan.items.unwrap()[7],
        OutputItem::Original {
            index: 0,
            rewrite: Some(FnRewrite { test: TestWrap::Blocking, hook: Some(HookSlot::AfterEach) }),
        }
    );
}
