//! The rewriting of a test module: which functions become submitted tests,
//! which become hooks registered in a slot, what the slots are named, and the
//! items that the rewritten module starts with.
//!
//! A module is described by plain values (`ItemModel`); the plan says what to
//! do with each item, and the caller builds the tokens.

use vstd::prelude::*;
use vstd::string::StringSliceAdditionalSpecFns;
use crate::hash::{adler32, get_hash};

verus! {

/// One attribute of a function, as far as the rewriting looks at it.
#[derive(Debug)]
pub enum AttrKind {
    /// A bare path, such as `#[test]` or `#[should_panic]`. It holds the
    /// path's identifier when the path is a single identifier.
    Path(Option<String>),
    /// An attribute with arguments: `#[name(..)]` or `#[name = ..]`.
    WithArgs,
}

/// A function of the module: its name, whether it is `async`, its attributes
/// in order.
#[derive(Debug)]
pub struct FnModel {
    pub name: String,
    pub is_async: bool,
    pub attrs: Vec<AttrKind>,
}

/// An item of the module.
#[derive(Debug)]
pub enum ItemModel {
    Fn(FnModel),
    Other,
}

/// How a function's body is turned into a submitted test.
#[derive(Clone, Copy, Debug, PartialEq, Eq, Structural)]
pub enum TestWrap {
    /// Not a test: the body stays.
    Untouched,
    /// A plain test: its body runs as a blocking closure.
    Blocking,
    /// An `async` test: its body becomes the test's future and the function
    /// loses its `async`.
    Async,
}

/// The four slots that a module's hooks are registered in.
#[derive(Clone, Copy, Debug, PartialEq, Eq, Structural)]
pub enum HookSlot {
    BeforeAll,
    BeforeEach,
    AfterAll,
    AfterEach,
}

/// What becomes of one function of the module: first its test wrapping, then
/// its registration as a hook.
#[derive(Clone, Copy, Debug, PartialEq, Eq, Structural)]
pub struct FnRewrite {
    pub test: TestWrap,
    pub hook: Option<HookSlot>,
}

/// The items that the rewriting adds at the top of the module.
#[derive(Clone, Copy, Debug, PartialEq, Eq, Structural)]
pub enum GeneratedItem {
    /// The shared list of submitted tests.
    TestHandles,
    /// The lock that elects the test thread that drives the run.
    RunAllLock,
    /// The distributed slice that collects the hooks of one slot.
    HookSlice(HookSlot),
    /// The function through which each test submits itself.
    SubmitTestInternal,
}

/// One item of the rewritten module.
#[derive(Clone, Copy, Debug, PartialEq, Eq, Structural)]
pub enum OutputItem {
    Generated(GeneratedItem),
    /// The item at `index` of the original module; for a function, what
    /// becomes of it.
    Original { index: usize, rewrite: Option<FnRewrite> },
}

/// The names of the four hook slices of a module.
#[derive(Debug)]
pub struct LinkmeIdents {
    pub before_each: String,
    pub before_all: String,
    pub after_each: String,
    pub after_all: String,
}

/// The whole rewriting of a module.
#[derive(Debug)]
pub struct ExpansionPlan {
    /// The checksum of the concatenated function names.
    pub hash: u32,
    pub idents: LinkmeIdents,
    /// The rewritten module's items; `None` for a module without a body,
    /// which is left as it is.
    pub items: Option<Vec<OutputItem>>,
}

/// The attribute is the bare path `test`.
pub open spec fn names_test(a: AttrKind) -> bool {
    match a {
        AttrKind::Path(Some(id)) => id@ == "test"@,
        _ => false,
    }
}

/// A function is a test when one of its attributes is the bare `#[test]`,
/// wherever it stands among the others.
pub open spec fn spec_is_test_fn(attrs: Seq<AttrKind>) -> bool {
    exists|i: int| 0 <= i < attrs.len() && #[trigger] names_test(attrs[i])
}

/// How a function is wrapped as a test.
pub open spec fn spec_test_wrap(f: FnModel) -> TestWrap {
    if !spec_is_test_fn(f.attrs@) {
        TestWrap::Untouched
    } else if f.is_async {
        TestWrap::Async
    } else {
        TestWrap::Blocking
    }
}

/// The slot that a function of this name is registered in.
pub open spec fn spec_hook_for(name: Seq<char>) -> Option<HookSlot> {
    if name == "before_all"@ {
        Some(HookSlot::BeforeAll)
    } else if name == "before_each"@ {
        Some(HookSlot::BeforeEach)
    } else if name == "after_all"@ {
        Some(HookSlot::AfterAll)
    } else if name == "after_each"@ {
        Some(HookSlot::AfterEach)
    } else {
        None
    }
}

/// Hooks that run around each test run on the test's own task, so their
/// futures must be `Send`.
pub open spec fn hook_needs_send(slot: HookSlot) -> bool {
    slot is BeforeEach || slot is AfterEach
}

/// The ASCII digit of `d`.
pub open spec fn digit_char(d: nat) -> char {
    (d + 48) as char
}

/// The decimal notation of `n`, without leading zeros.
pub open spec fn decimal(n: nat) -> Seq<char>
    decreases n,
{
    if n < 10 {
        seq![digit_char(n)]
    } else {
        decimal(n / 10).push(digit_char(n % 10))
    }
}

/// The prefix of the slice name of each slot.
pub open spec fn slot_prefix(slot: HookSlot) -> Seq<char> {
    match slot {
        HookSlot::BeforeEach => "BEFORE_EACH_"@,
        HookSlot::BeforeAll => "BEFORE_ALL_"@,
        HookSlot::AfterEach => "AFTER_EACH_"@,
        HookSlot::AfterAll => "AFTER_ALL_"@,
    }
}

/// The name of a slot's slice for a module whose names hash to `hash`.
pub open spec fn slot_ident(slot: HookSlot, hash: u32) -> Seq<char> {
    slot_prefix(slot) + decimal(hash as nat)
}

/// The concatenation of the names of the module's functions, in order.
pub open spec fn fn_names(items: Seq<ItemModel>) -> Seq<char>
    decreases items.len(),
{
    if items.len() == 0 {
        Seq::empty()
    } else {
        fn_names(items.drop_last()) + match items.last() {
            ItemModel::Fn(f) => f.name@,
            ItemModel::Other => Seq::empty(),
        }
    }
}

/// The items added at the top of every rewritten module, in order.
pub open spec fn prelude() -> Seq<GeneratedItem> {
    seq![
        GeneratedItem::TestHandles,
        GeneratedItem::RunAllLock,
        GeneratedItem::HookSlice(HookSlot::BeforeEach),
        GeneratedItem::HookSlice(HookSlot::BeforeAll),
        GeneratedItem::HookSlice(HookSlot::AfterEach),
        GeneratedItem::HookSlice(HookSlot::AfterAll),
        GeneratedItem::SubmitTestInternal,
    ]
}

/// What becomes of one item of the module.
pub open spec fn spec_rewrite(item: ItemModel) -> Option<FnRewrite> {
    match item {
        ItemModel::Fn(f) => Some(FnRewrite { test: spec_test_wrap(f), hook: spec_hook_for(f.name@) }),
        ItemModel::Other => None,
    }
}

/// The rewritten module: the prelude, then every original item in order.
pub open spec fn spec_output(content: Seq<ItemModel>) -> Seq<OutputItem> {
    prelude().map_values(|g: GeneratedItem| OutputItem::Generated(g)) + Seq::new(
        content.len(),
        |i: int| OutputItem::Original { index: i as usize, rewrite: spec_rewrite(content[i]) },
    )
}

/// The hash that names a module's slots.
pub open spec fn spec_module_hash(content: Option<Seq<ItemModel>>) -> nat {
    match content {
        Some(items) => adler32(vstd::utf8::encode_utf8(fn_names(items))),
        None => adler32(vstd::utf8::encode_utf8(Seq::empty())),
    }
}

impl HookSlot {
    /// Whether hooks of this slot must produce `Send` futures.
    pub fn needs_send(&self) -> (r: bool)
        ensures
            r == hook_needs_send(*self),
    {
        match self {
            HookSlot::BeforeEach | HookSlot::AfterEach => true,
            HookSlot::BeforeAll | HookSlot::AfterAll => false,
        }
    }
}

impl LinkmeIdents {
    /// The slice name of `slot`.
    pub fn ident_for(&self, slot: HookSlot) -> (r: &String)
        ensures
            r == match slot {
                HookSlot::BeforeEach => &self.before_each,
                HookSlot::BeforeAll => &self.before_all,
                HookSlot::AfterEach => &self.after_each,
                HookSlot::AfterAll => &self.after_all,
            },
    {
        match slot {
            HookSlot::BeforeEach => &self.before_each,
            HookSlot::BeforeAll => &self.before_all,
            HookSlot::AfterEach => &self.after_each,
            HookSlot::AfterAll => &self.after_all,
        }
    }
}

/// Whether `f` is a test: one of its attributes is the bare `#[test]`.
/// Attributes with arguments (doc comments, `#[should_panic(..)]`) are
/// skipped.
pub fn is_test_fn(f: &FnModel) -> (r: bool)
    ensures
        r == spec_is_test_fn(f.attrs@),
{
    let test = String::from_str("test");
    let mut i: usize = 0;
    while i < f.attrs.len()
        invariant
            i <= f.attrs.len(),
            test@ == "test"@,
            forall|j: int| 0 <= j < i ==> !names_test(#[trigger] f.attrs@[j]),
        decreases f.attrs.len() - i,
    {
        match &f.attrs[i] {
            AttrKind::Path(Some(id)) => {
                if *id == test {
                    proof {
                        assert(names_test(f.attrs@[i as int]));
                    }
                    return true;
                }
            },
            AttrKind::Path(None) => {},
            AttrKind::WithArgs => {},
        }
        i = i + 1;
    }
    false
}

/// How the test `f` is wrapped, if it is one.
pub fn wrap_test_fn(f: &FnModel) -> (r: TestWrap)
    ensures
        r == spec_test_wrap(*f),
{
    if !is_test_fn(f) {
        TestWrap::Untouched
    } else if f.is_async {
        TestWrap::Async
    } else {
        TestWrap::Blocking
    }
}

/// The slot that `f` is registered in as a hook, if its name is one of
/// `before_all`, `before_each`, `after_all` and `after_each`.
pub fn wrap_linkme_functions(f: &FnModel) -> (r: Option<HookSlot>)
    ensures
        r == spec_hook_for(f.name@),
{
    if f.name == String::from_str("before_all") {
        Some(HookSlot::BeforeAll)
    } else if f.name == String::from_str("before_each") {
        Some(HookSlot::BeforeEach)
    } else if f.name == String::from_str("after_all") {
        Some(HookSlot::AfterAll)
    } else if f.name == String::from_str("after_each") {
        Some(HookSlot::AfterEach)
    } else {
        None
    }
}

/// The one-character text of the digit `d`.
fn digit_str(d: u32) -> (r: &'static str)
    requires
        d < 10,
    ensures
        r@ == seq![digit_char(d as nat)],
{
    proof {
        reveal_strlit("0");
        reveal_strlit("1");
        reveal_strlit("2");
        reveal_strlit("3");
        reveal_strlit("4");
        reveal_strlit("5");
        reveal_strlit("6");
        reveal_strlit("7");
        reveal_strlit("8");
        reveal_strlit("9");
    }
    match d {
        0 => "0",
        1 => "1",
        2 => "2",
        3 => "3",
        4 => "4",
        5 => "5",
        6 => "6",
        7 => "7",
        8 => "8",
        _ => "9",
    }
}

/// Appends the decimal notation of `n` to `out`.
fn push_decimal(out: &mut String, n: u32)
    ensures
        final(out)@ == old(out)@ + decimal(n as nat),
    decreases n,
{
    if n >= 10 {
        push_decimal(out, n / 10);
    }
    out.append(digit_str(n % 10));
    proof {
        if n >= 10 {
            assert(old(out)@ + decimal(n as nat) =~= old(out)@ + decimal((n / 10) as nat) + seq![
                digit_char((n % 10) as nat),
            ]);
        }
    }
}

/// The slice name of `prefix` for `hash`.
fn slot_name(prefix: &str, hash: u32) -> (r: String)
    ensures
        r@ == prefix@ + decimal(hash as nat),
{
    let mut s = String::from_str(prefix);
    push_decimal(&mut s, hash);
    s
}

/// The names of the four hook slices of a module whose function names hash
/// to `hash`: the slot's prefix followed by the hash in decimal.
pub fn get_all_linkme_idents(hash: u32) -> (r: LinkmeIdents)
    ensures
        r.before_each@ == slot_ident(HookSlot::BeforeEach, hash),
        r.before_all@ == slot_ident(HookSlot::BeforeAll, hash),
        r.after_each@ == slot_ident(HookSlot::AfterEach, hash),
        r.after_all@ == slot_ident(HookSlot::AfterAll, hash),
{
    LinkmeIdents {
        before_each: slot_name("BEFORE_EACH_", hash),
        before_all: slot_name("BEFORE_ALL_", hash),
        after_each: slot_name("AFTER_EACH_", hash),
        after_all: slot_name("AFTER_ALL_", hash),
    }
}

/// The rewriting of a test module whose items are `content` (`None` for a
/// module without a body). The names of all its functions, concatenated in
/// order, are hashed to name the hook slices; a module with a body gets the
/// generated items at its top, followed by its own items, each function with
/// its test wrapping and hook slot.
pub fn testme(content: &Option<Vec<ItemModel>>) -> (plan: ExpansionPlan)
    ensures
        plan.hash == spec_module_hash(
            match content {
                Some(v) => Some(v@),
                None => None,
            },
        ),
        plan.idents.before_each@ == slot_ident(HookSlot::BeforeEach, plan.hash),
        plan.idents.before_all@ == slot_ident(HookSlot::BeforeAll, plan.hash),
        plan.idents.after_each@ == slot_ident(HookSlot::AfterEach, plan.hash),
        plan.idents.after_all@ == slot_ident(HookSlot::AfterAll, plan.hash),
        match content {
            Some(v) => plan.items matches Some(out) && out@ == spec_output(v@),
            None => plan.items is None,
        },
{
    let mut all_fn_names = String::new();
    if let Some(items) = content {
        let mut i: usize = 0;
        while i < items.len()
            invariant
                i <= items.len(),
                all_fn_names@ == fn_names(items@.take(i as int)),
            decreases items.len() - i,
        {
            proof {
                assert(items@.take(i + 1).drop_last() =~= items@.take(i as int));
            }
            match &items[i] {
                ItemModel::Fn(f) => {
                    all_fn_names.append(f.name.as_str());
                },
                ItemModel::Other => {},
            }
            i = i + 1;
        }
        proof {
            assert(items@.take(items@.len() as int) =~= items@);
        }
    }
    let hash = get_hash(all_fn_names.as_str());
    let idents = get_all_linkme_idents(hash);
    let items = match content {
        Some(items) => {
            let mut out: Vec<OutputItem> = Vec::new();
            out.push(OutputItem::Generated(GeneratedItem::TestHandles));
            out.push(OutputItem::Generated(GeneratedItem::RunAllLock));
            out.push(OutputItem::Generated(GeneratedItem::HookSlice(HookSlot::BeforeEach)));
            out.push(OutputItem::Generated(GeneratedItem::HookSlice(HookSlot::BeforeAll)));
            out.push(OutputItem::Generated(GeneratedItem::HookSlice(HookSlot::AfterEach)));
            out.push(OutputItem::Generated(GeneratedItem::HookSlice(HookSlot::AfterAll)));
            out.push(OutputItem::Generated(GeneratedItem::SubmitTestInternal));
            let ghost head = prelude().map_values(|g: GeneratedItem| OutputItem::Generated(g));
            assert(out@ =~= head);
            let mut i: usize = 0;
            while i < items.len()
                invariant
                    i <= items.len(),
                    head == prelude().map_values(|g: GeneratedItem| OutputItem::Generated(g)),
                    out@ =~= head + Seq::new(
                        i as nat,
                        |k: int|
                            OutputItem::Original {
                                index: k as usize,
                                rewrite: spec_rewrite(items@[k]),
                            },
                    ),
                decreases items.len() - i,
            {
                let rewrite = match &items[i] {
                    ItemModel::Fn(f) => Some(
                        FnRewrite { test: wrap_test_fn(f), hook: wrap_linkme_functions(f) },
                    ),
                    ItemModel::Other => None,
                };
                out.push(OutputItem::Original { index: i, rewrite });
                i = i + 1;
            }
            Some(out)
        },
        None => None,
    };
    ExpansionPlan { hash, idents, items }
}

/// Two modules whose function names concatenate to the same text get the
/// same hash and so the same slice names: two such modules in one crate
/// declare the same statics twice and do not compile.
pub proof fn law_same_fn_names_same_slots(a: Seq<ItemModel>, b: Seq<ItemModel>, slot: HookSlot)
    requires
        fn_names(a) == fn_names(b),
    ensures
        spec_module_hash(Some(a)) == spec_module_hash(Some(b)),
        slot_ident(slot, spec_module_hash(Some(a)) as u32) == slot_ident(
            slot,
            spec_module_hash(Some(b)) as u32,
        ),
{
}

/// A function with a bare `#[test]` among its attributes is a test, whatever
/// other attributes come before or after it; one without is not.
pub proof fn law_any_test_attribute_makes_a_test(attrs: Seq<AttrKind>, i: int)
    requires
        0 <= i < attrs.len(),
        names_test(attrs[i]),
    ensures
        spec_is_test_fn(attrs),
        spec_is_test_fn(attrs.subrange(0, i) + seq![AttrKind::WithArgs] + attrs.subrange(
            i,
            attrs.len() as int,
        )),
{
    let longer = attrs.subrange(0, i) + seq![AttrKind::WithArgs] + attrs.subrange(
        i,
        attrs.len() as int,
    );
    assert(longer[i + 1] == attrs[i]);
}

/// The decimal notation read back as a number.
pub open spec fn decimal_value(s: Seq<char>) -> nat
    decreases s.len(),
{
    if s.len() == 0 {
        0
    } else {
        decimal_value(s.drop_last()) * 10 + ((s.last() as nat) - 48) as nat
    }
}

/// Reading back the decimal notation of `n` gives `n`.
pub proof fn lemma_decimal_value(n: nat)
    ensures
        decimal_value(decimal(n)) == n,
        decimal(n).len() > 0,
        forall|k: int|
            0 <= k < decimal(n).len() ==> 48 <= (#[trigger] decimal(n)[k]) as nat <= 57,
        n > 0 ==> decimal(n)[0] as nat != 48,
    decreases n,
{
    assert(digit_char(n % 10) as nat == n % 10 + 48);
    if n >= 10 {
        assert(digit_char(n % 10) as nat <= 57);
        lemma_decimal_value(n / 10);
        let d = decimal(n / 10).push(digit_char(n % 10));
        assert(d.drop_last() =~= decimal(n / 10));
        assert(d.last() == digit_char(n % 10));
        assert(decimal(n) == d);
        assert(decimal_value(d) == decimal_value(decimal(n / 10)) * 10 + n % 10);
        assert((n / 10) * 10 + n % 10 == n);
    } else {
        let d = seq![digit_char(n)];
        assert(d.drop_last() =~= Seq::<char>::empty());
        assert(digit_char(n) as nat == n + 48);
        assert(d.last() == digit_char(n));
        assert(decimal_value(Seq::<char>::empty()) == 0);
        assert(decimal_value(d) == n);
    }
}

/// Two slice names are equal only for the same slot and the same hash:
/// modules whose names hash differently declare disjoint statics.
pub proof fn law_slot_idents_injective(a: HookSlot, h1: u32, b: HookSlot, h2: u32)
    requires
        slot_ident(a, h1) == slot_ident(b, h2),
    ensures
        a == b,
        h1 == h2,
{
    if a != b {
        reveal_strlit("BEFORE_EACH_");
        reveal_strlit("BEFORE_ALL_");
        reveal_strlit("AFTER_EACH_");
        reveal_strlit("AFTER_ALL_");
        lemma_decimal_value(h1 as nat);
        lemma_decimal_value(h2 as nat);
        let sa = slot_ident(a, h1);
        let sb = slot_ident(b, h2);
        if a is BeforeEach || a is BeforeAll {
            if b is BeforeEach || b is BeforeAll {
                assert(sa[7] != sb[7]);
            } else {
                assert(sa[0] != sb[0]);
            }
        } else {
            if b is BeforeEach || b is BeforeAll {
                assert(sa[0] != sb[0]);
            } else {
                assert(sa[6] != sb[6]);
            }
        }
    } else {
        let p = slot_prefix(a);
        let sa = slot_ident(a, h1);
        assert(sa.subrange(p.len() as int, sa.len() as int) =~= decimal(h1 as nat));
        assert(slot_ident(b, h2).subrange(p.len() as int, sa.len() as int) =~= decimal(h2 as nat));
        lemma_decimal_value(h1 as nat);
        lemma_decimal_value(h2 as nat);
    }
}

/// A function is a test exactly when one of its attributes is the bare path
/// `test`; any other attributes, before or after it, do not matter.
pub proof fn law_test_fn_iff_bare_test_attribute(attrs: Seq<AttrKind>)
    ensures
        spec_is_test_fn(attrs) <==> exists|i: int|
            0 <= i < attrs.len() && (#[trigger] attrs[i] matches AttrKind::Path(Some(id)) && id@
                == "test"@),
{
    if spec_is_test_fn(attrs) {
        let i = choose|i: int| 0 <= i < attrs.len() && #[trigger] names_test(attrs[i]);
        assert(attrs[i] matches AttrKind::Path(Some(id)) && id@ == "test"@);
    }
    if exists|i: int|
        0 <= i < attrs.len() && (#[trigger] attrs[i] matches AttrKind::Path(Some(id)) && id@
            == "test"@) {
        let i = choose|i: int|
            0 <= i < attrs.len() && (#[trigger] attrs[i] matches AttrKind::Path(Some(id)) && id@
                == "test"@);
        assert(names_test(attrs[i]));
    }
}

/// A function without a bare `#[test]` is left as it is; a test runs as its
/// future when it is `async` and as a blocking closure when it is not,
/// whatever its other attributes.
pub proof fn law_test_wrap_follows_asyncness(f: FnModel)
    ensures
        !(exists|i: int|
            0 <= i < f.attrs@.len() && (#[trigger] f.attrs@[i] matches AttrKind::Path(Some(id))
                && id@ == "test"@)) ==> spec_test_wrap(f) == TestWrap::Untouched,
        (exists|i: int|
            0 <= i < f.attrs@.len() && (#[trigger] f.attrs@[i] matches AttrKind::Path(Some(id))
                && id@ == "test"@)) ==> spec_test_wrap(f) == if f.is_async {
            TestWrap::Async
        } else {
            TestWrap::Blocking
        },
{
    law_test_fn_iff_bare_test_attribute(f.attrs@);
}

/// Each of the four hook names registers its function in its own slot, and
/// no other name registers anything.
pub proof fn law_hooks_only_by_their_names(name: Seq<char>)
    ensures
        spec_hook_for(name) == Some(HookSlot::BeforeAll) <==> name == "before_all"@,
        spec_hook_for(name) == Some(HookSlot::BeforeEach) <==> name == "before_each"@,
        spec_hook_for(name) == Some(HookSlot::AfterAll) <==> name == "after_all"@,
        spec_hook_for(name) == Some(HookSlot::AfterEach) <==> name == "after_each"@,
        spec_hook_for(name) is None <==> (name != "before_all"@ && name != "before_each"@
            && name != "after_all"@ && name != "after_each"@),
{
    reveal_strlit("before_all");
    reveal_strlit("before_each");
    reveal_strlit("after_all");
    reveal_strlit("after_each");
    assert("before_all"@[7] != "before_each"@[7]);
    assert("before_all"@[0] != "after_all"@[0]);
    assert("before_all"@[0] != "after_each"@[0]);
    assert("before_each"@[0] != "after_all"@[0]);
    assert("before_each"@[0] != "after_each"@[0]);
    assert("after_all"@[6] != "after_each"@[6]);
}

/// Every module with a body is rewritten into the test list, the run lock,
/// the slices before each, before all, after each and after all, and the
/// submit function, in that order, followed by each of its own items in
/// order: a function with its test wrapping and hook slot, any other item
/// unchanged.
pub proof fn law_rewritten_module_layout(content: Seq<ItemModel>)
    ensures
        spec_output(content).len() == 7 + content.len(),
        spec_output(content)[0] == OutputItem::Generated(GeneratedItem::TestHandles),
        spec_output(content)[1] == OutputItem::Generated(GeneratedItem::RunAllLock),
        spec_output(content)[2] == OutputItem::Generated(
            GeneratedItem::HookSlice(HookSlot::BeforeEach),
        ),
        spec_output(content)[3] == OutputItem::Generated(
            GeneratedItem::HookSlice(HookSlot::BeforeAll),
        ),
        spec_output(content)[4] == OutputItem::Generated(
            GeneratedItem::HookSlice(HookSlot::AfterEach),
        ),
        spec_output(content)[5] == OutputItem::Generated(
            GeneratedItem::HookSlice(HookSlot::AfterAll),
        ),
        spec_output(content)[6] == OutputItem::Generated(GeneratedItem::SubmitTestInternal),
        forall|i: int|
            0 <= i < content.len() ==> #[trigger] spec_output(content)[7 + i] == (OutputItem::Original {
                index: i as usize,
                rewrite: match content[i] {
                    ItemModel::Fn(f) => Some(
                        (FnRewrite { test: spec_test_wrap(f), hook: spec_hook_for(f.name@) }),
                    ),
                    ItemModel::Other => None,
                },
            }),
{
}

/// The names that are hashed are those of the functions, in order: the names
/// of two item lists one after the other are the names of each, a function
/// contributes its name and any other item nothing.
pub proof fn law_fn_names_concatenate(a: Seq<ItemModel>, b: Seq<ItemModel>)
    ensures
        fn_names(a + b) == fn_names(a) + fn_names(b),
        fn_names(Seq::empty()).len() == 0,
        forall|f: FnModel| #[trigger] fn_names(seq![ItemModel::Fn(f)]) == f.name@,
        fn_names(seq![ItemModel::Other]).len() == 0,
    decreases b.len(),
{
    assert(fn_names(Seq::<ItemModel>::empty()) =~= Seq::<char>::empty());
    assert forall|f: FnModel| #[trigger] fn_names(seq![ItemModel::Fn(f)]) == f.name@ by {
        let one = seq![ItemModel::Fn(f)];
        assert(one.drop_last() =~= Seq::<ItemModel>::empty());
        assert(one.last() == ItemModel::Fn(f));
        assert(fn_names(one) =~= Seq::<char>::empty() + f.name@);
    }
    let other = seq![ItemModel::Other];
    assert(other.drop_last() =~= Seq::<ItemModel>::empty());
    assert(other.last() == ItemModel::Other);
    if b.len() == 0 {
        assert(a + b =~= a);
    } else {
        law_fn_names_concatenate(a, b.drop_last());
        assert((a + b).drop_last() =~= a + b.drop_last());
        assert((a + b).last() == b.last());
    }
}

/// A slice name is its slot's prefix followed by the hash in plain decimal:
/// digits only, no leading zero, read back as the hash.
pub proof fn law_slot_ident_is_prefix_then_decimal(slot: HookSlot, hash: u32)
    ensures
        ({
            let prefix = match slot {
                HookSlot::BeforeEach => "BEFORE_EACH_"@,
                HookSlot::BeforeAll => "BEFORE_ALL_"@,
                HookSlot::AfterEach => "AFTER_EACH_"@,
                HookSlot::AfterAll => "AFTER_ALL_"@,
            };
            let s = slot_ident(slot, hash);
            let digits = s.subrange(prefix.len() as int, s.len() as int);
            &&& s.len() > prefix.len()
            &&& s.subrange(0, prefix.len() as int) == prefix
            &&& forall|k: int| 0 <= k < digits.len() ==> 48 <= (#[trigger] digits[k]) as nat <= 57
            &&& hash > 0 ==> digits[0] as nat != 48
            &&& decimal_value(digits) == hash
        }),
{
    lemma_decimal_value(hash as nat);
    let prefix = slot_prefix(slot);
    let s = slot_ident(slot, hash);
    assert(s.subrange(0, prefix.len() as int) =~= prefix);
    assert(s.subrange(prefix.len() as int, s.len() as int) =~= decimal(hash as nat));
}

/// The hash of a module is the Adler-32 checksum of the UTF-8 text of its
/// function names, in order; a module without a body hashes like an empty
/// one.
pub proof fn law_module_hash_of_names(items: Seq<ItemModel>)
    ensures
        spec_module_hash(Some(items)) == adler32(vstd::utf8::encode_utf8(fn_names(items))),
        spec_module_hash(None) == spec_module_hash(Some(Seq::empty())),
{
    assert(fn_names(Seq::<ItemModel>::empty()) =~= Seq::<char>::empty());
}

} // verus!
