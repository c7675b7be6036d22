//! Discovery of the Soroban contracts a source file defines.
//!
//! A contract is named by a `#[contract]` struct or by the self type of a
//! `#[contractimpl]` block (or both).  For each contract name the discovery
//! reports whether the struct carries `#[contract]`, whether some
//! `#[contractimpl]` block implements it, the public functions of those
//! blocks (flagging the reserved entry points `__constructor` and
//! `__check_auth`), and the file's `#[contracttype]` items.  Contracts are
//! listed by ascending name, each name once.
use vstd::prelude::*;
use crate::analyzer::{has_attr_named, has_attr_named_exec};
use crate::syntax::{
    file_lines_positive, impl_item_lines_positive, impl_items_lines_positive, item_lines_positive,
    items_lines_positive, sig_lines_positive, AstFile, AstImplItem, AstItem, AstType,
};
use crate::text::{lemma_seq_lt_asymmetric, lemma_seq_lt_total, lemma_seq_lt_transitive, seq_lt, str_lt, text_eq};

verus! {

broadcast use vstd::std_specs::vec::group_vec_axioms, vstd::seq::group_seq_axioms;

/// A public function of a `#[contractimpl]` block.
#[derive(Debug, Clone, PartialEq, Eq)]
pub struct DiscoveredFunction {
    pub name: String,
    /// The line of the function's name.
    pub line: usize,
    /// Whether the name is a reserved entry point.
    pub is_reserved: bool,
}

/// A `#[contracttype]` item: its name and `"struct"` or `"enum"`.
#[derive(Debug, Clone, PartialEq, Eq)]
pub struct StorageType {
    pub name: String,
    pub kind: &'static str,
}

/// A contract found in a file.
#[derive(Debug)]
pub struct DiscoveredContract {
    pub struct_name: String,
    pub has_contract_attr: bool,
    pub has_contractimpl: bool,
    pub fns: Vec<DiscoveredFunction>,
    pub storage_types: Vec<StorageType>,
}

/// The plain values of a function: name, line, reserved.
pub open spec fn fn_view(f: DiscoveredFunction) -> (Seq<char>, usize, bool) {
    (f.name@, f.line, f.is_reserved)
}

/// The plain values of a storage type: name, kind.
pub open spec fn storage_view(t: StorageType) -> (Seq<char>, Seq<char>) {
    (t.name@, t.kind@)
}

/// The functions that are not reserved entry points, in order.
pub open spec fn unreserved(fs: Seq<(Seq<char>, usize, bool)>) -> Seq<(Seq<char>, usize, bool)>
    decreases fs.len(),
{
    if fs.len() == 0 {
        seq![]
    } else {
        unreserved(fs.drop_last()) + if fs.last().2 {
            Seq::<(Seq<char>, usize, bool)>::empty()
        } else {
            seq![fs.last()]
        }
    }
}

impl DiscoveredContract {
    /// The public functions that are not reserved entry points, in order.
    pub fn public_functions(&self) -> (r: Vec<&DiscoveredFunction>)
        ensures
            r@.map_values(|f: &DiscoveredFunction| fn_view(*f)) == unreserved(
                self.fns@.map_values(|f: DiscoveredFunction| fn_view(f)),
            ),
    {
        let ghost all = self.fns@.map_values(|f: DiscoveredFunction| fn_view(f));
        let mut out: Vec<&DiscoveredFunction> = Vec::new();
        let mut i: usize = 0;
        while i < self.fns.len()
            invariant
                i <= self.fns@.len(),
                all == self.fns@.map_values(|f: DiscoveredFunction| fn_view(f)),
                out@.map_values(|f: &DiscoveredFunction| fn_view(*f)) == unreserved(all.take(i as int)),
            decreases self.fns.len() - i,
        {
            assert(all.take(i + 1).drop_last() =~= all.take(i as int));
            assert(all.take(i + 1).last() == fn_view(self.fns@[i as int]));
            let ghost before = out@.map_values(|f: &DiscoveredFunction| fn_view(*f));
            let f = &self.fns[i];
            if !f.is_reserved {
                out.push(f);
                assert(out@.map_values(|f: &DiscoveredFunction| fn_view(*f)) =~= before.push(fn_view(*f)));
            }
            i = i + 1;
        }
        assert(all.take(all.len() as int) =~= all);
        out
    }

    /// Every public function, reserved entry points included, in order.
    pub fn all_public_functions(&self) -> (r: &[DiscoveredFunction])
        ensures
            r@ == self.fns@,
    {
        self.fns.as_slice()
    }
}

// ── The discovery, stated ───────────────────────────────────────────────────

/// The `#[contracttype]` structs and enums among the items, in order.
pub open spec fn storage_types_of(items: Seq<AstItem>) -> Seq<(Seq<char>, Seq<char>)>
    decreases items.len(),
{
    if items.len() == 0 {
        seq![]
    } else {
        storage_types_of(items.drop_last()) + match items.last() {
            AstItem::Struct { attrs, ident, .. } => if has_attr_named(attrs@, "contracttype"@) {
                seq![(ident@, "struct"@)]
            } else {
                Seq::<(Seq<char>, Seq<char>)>::empty()
            },
            AstItem::Enum { attrs, ident, .. } => if has_attr_named(attrs@, "contracttype"@) {
                seq![(ident@, "enum"@)]
            } else {
                Seq::<(Seq<char>, Seq<char>)>::empty()
            },
            _ => Seq::<(Seq<char>, Seq<char>)>::empty(),
        }
    }
}

/// The names of the `#[contract]` structs, in order.
pub open spec fn contract_structs(items: Seq<AstItem>) -> Seq<Seq<char>>
    decreases items.len(),
{
    if items.len() == 0 {
        seq![]
    } else {
        contract_structs(items.drop_last()) + match items.last() {
            AstItem::Struct { attrs, ident, .. } => if has_attr_named(attrs@, "contract"@) {
                seq![ident@]
            } else {
                Seq::<Seq<char>>::empty()
            },
            _ => Seq::<Seq<char>>::empty(),
        }
    }
}

/// The name an `impl` block's self type gives its contract: the last
/// segment of a path type, else `<unknown>`.
pub open spec fn impl_contract_name(t: AstType) -> Seq<char> {
    match t {
        AstType::Path { last: Some(n), .. } => n@,
        _ => "<unknown>"@,
    }
}

/// The contract names of the `#[contractimpl]` blocks, in order.
pub open spec fn contractimpl_names(items: Seq<AstItem>) -> Seq<Seq<char>>
    decreases items.len(),
{
    if items.len() == 0 {
        seq![]
    } else {
        contractimpl_names(items.drop_last()) + match items.last() {
            AstItem::Impl { attrs, self_ty, .. } => if has_attr_named(attrs@, "contractimpl"@) {
                seq![impl_contract_name(self_ty)]
            } else {
                Seq::<Seq<char>>::empty()
            },
            _ => Seq::<Seq<char>>::empty(),
        }
    }
}

/// Whether a function name is a reserved entry point.
pub open spec fn is_reserved_name(n: Seq<char>) -> bool {
    n == "__constructor"@ || n == "__check_auth"@
}

/// The public functions of an `impl` block's items.
pub open spec fn impl_fns(its: Seq<AstImplItem>) -> Seq<(Seq<char>, usize, bool)>
    decreases its.len(),
{
    if its.len() == 0 {
        seq![]
    } else {
        impl_fns(its.drop_last()) + match its.last() {
            AstImplItem::Fn { is_public, sig, .. } => if is_public {
                seq![(sig.ident@, sig.ident_line, is_reserved_name(sig.ident@))]
            } else {
                Seq::<(Seq<char>, usize, bool)>::empty()
            },
            _ => Seq::<(Seq<char>, usize, bool)>::empty(),
        }
    }
}

/// The public functions of the `#[contractimpl]` blocks of contract `name`, in order.
pub open spec fn contract_fns(items: Seq<AstItem>, name: Seq<char>) -> Seq<(Seq<char>, usize, bool)>
    decreases items.len(),
{
    if items.len() == 0 {
        seq![]
    } else {
        contract_fns(items.drop_last(), name) + match items.last() {
            AstItem::Impl { attrs, self_ty, items: its, .. } => if has_attr_named(attrs@, "contractimpl"@)
                && impl_contract_name(self_ty) == name {
                impl_fns(its@)
            } else {
                Seq::<(Seq<char>, usize, bool)>::empty()
            },
            _ => Seq::<(Seq<char>, usize, bool)>::empty(),
        }
    }
}

/// The plain values of a contract: name, `#[contract]`, `#[contractimpl]`,
/// functions, storage types.
pub type ContractView = (Seq<char>, bool, bool, Seq<(Seq<char>, usize, bool)>, Seq<(Seq<char>, Seq<char>)>);

/// The plain values of a contract.
pub open spec fn contract_view(c: DiscoveredContract) -> ContractView {
    (
        c.struct_name@,
        c.has_contract_attr,
        c.has_contractimpl,
        c.fns@.map_values(|f: DiscoveredFunction| fn_view(f)),
        c.storage_types@.map_values(|t: StorageType| storage_view(t)),
    )
}

/// What the discovery reports on contract `name`.
pub open spec fn expected_contract(items: Seq<AstItem>, name: Seq<char>) -> ContractView {
    (
        name,
        contract_structs(items).contains(name),
        contractimpl_names(items).contains(name),
        contract_fns(items, name),
        storage_types_of(items),
    )
}

/// Whether the contracts are listed by strictly ascending name.
pub open spec fn names_ascending(cs: Seq<DiscoveredContract>) -> bool {
    forall|i: int, j: int| 0 <= i < j < cs.len() ==> seq_lt(#[trigger] cs[i].struct_name@, #[trigger] cs[j].struct_name@)
}

/// Whether some contract of `cs` is named `n`.
pub open spec fn has_contract_named(cs: Seq<DiscoveredContract>, n: Seq<char>) -> bool {
    exists|i: int| 0 <= i < cs.len() && (#[trigger] cs[i]).struct_name@ == n
}

/// Whether `cs` is the discovery of `items`: ascending names, exactly the
/// names of the `#[contract]` structs and `#[contractimpl]` blocks, each
/// described as [`expected_contract`] says.
pub open spec fn is_discovery_of(cs: Seq<DiscoveredContract>, items: Seq<AstItem>) -> bool {
    &&& names_ascending(cs)
    &&& forall|n: Seq<char>| #[trigger] has_contract_named(cs, n) <==> (contract_structs(items).contains(n)
        || contractimpl_names(items).contains(n))
    &&& forall|i: int| 0 <= i < cs.len() ==> contract_view(#[trigger] cs[i]) == expected_contract(items, cs[i].struct_name@)
}

// ── The discovery, performed ────────────────────────────────────────────────

/// The storage types of the items.
fn collect_storage_types(items: &Vec<AstItem>) -> (r: Vec<StorageType>)
    ensures
        r@.map_values(|t: StorageType| storage_view(t)) == storage_types_of(items@),
{
    let mut out: Vec<StorageType> = Vec::new();
    let mut i: usize = 0;
    while i < items.len()
        invariant
            i <= items@.len(),
            out@.map_values(|t: StorageType| storage_view(t)) == storage_types_of(items@.take(i as int)),
        decreases items.len() - i,
    {
        assert(items@.take(i + 1).drop_last() =~= items@.take(i as int));
        assert(items@.take(i + 1).last() == items@[i as int]);
        let ghost before = out@.map_values(|t: StorageType| storage_view(t));
        match &items[i] {
            AstItem::Struct { attrs, ident, .. } => {
                if has_attr_named_exec(attrs, "contracttype") {
                    out.push(StorageType { name: ident.clone(), kind: "struct" });
                    assert(out@.map_values(|t: StorageType| storage_view(t)) =~= before.push((ident@, "struct"@)));
                }
            },
            AstItem::Enum { attrs, ident, .. } => {
                if has_attr_named_exec(attrs, "contracttype") {
                    out.push(StorageType { name: ident.clone(), kind: "enum" });
                    assert(out@.map_values(|t: StorageType| storage_view(t)) =~= before.push((ident@, "enum"@)));
                }
            },
            _ => {},
        }
        assert(out@.map_values(|t: StorageType| storage_view(t)) =~= storage_types_of(items@.take(i + 1)));
        i = i + 1;
    }
    assert(items@.take(items@.len() as int) =~= items@);
    out
}

/// A copy of the storage types.
fn copy_storage_types(v: &Vec<StorageType>) -> (r: Vec<StorageType>)
    ensures
        r@.map_values(|t: StorageType| storage_view(t)) == v@.map_values(|t: StorageType| storage_view(t)),
{
    let mut out: Vec<StorageType> = Vec::new();
    let mut i: usize = 0;
    while i < v.len()
        invariant
            i <= v@.len(),
            out@.map_values(|t: StorageType| storage_view(t)) == v@.take(i as int).map_values(
                |t: StorageType| storage_view(t),
            ),
        decreases v.len() - i,
    {
        let ghost before = out@.map_values(|t: StorageType| storage_view(t));
        let t = StorageType { name: v[i].name.clone(), kind: v[i].kind };
        assert(storage_view(t) == storage_view(v@[i as int]));
        out.push(t);
        assert(out@.map_values(|t: StorageType| storage_view(t)) =~= before.push(storage_view(v@[i as int])));
        assert(v@.take(i + 1) =~= v@.take(i as int).push(v@[i as int]));
        assert(out@.map_values(|t: StorageType| storage_view(t)) =~= v@.take(i + 1).map_values(
            |t: StorageType| storage_view(t),
        ));
        i = i + 1;
    }
    assert(v@.take(v@.len() as int) =~= v@);
    out
}

/// Whether the name is a reserved entry point.
fn is_reserved_exec(n: &str) -> (r: bool)
    ensures
        r == is_reserved_name(n@),
{
    text_eq(n, "__constructor") || text_eq(n, "__check_auth")
}

/// The contract name an `impl` block's self type gives.
fn impl_contract_name_exec(t: &AstType) -> (r: String)
    ensures
        r@ == impl_contract_name(*t),
{
    match t {
        AstType::Path { last: Some(n), .. } => n.clone(),
        _ => "<unknown>".to_owned(),
    }
}

/// The position of contract `name` in the ascending list `cs`, inserting a
/// new entry for it if there is none.
fn entry_for(
    cs: &mut Vec<DiscoveredContract>,
    name: &String,
    has_contract_attr: bool,
    storage: &Vec<StorageType>,
) -> (k: usize)
    requires
        names_ascending(old(cs)@),
    ensures
        names_ascending(final(cs)@),
        k < final(cs)@.len(),
        final(cs)@[k as int].struct_name@ == name@,
        has_contract_named(old(cs)@, name@) ==> final(cs)@ == old(cs)@,
        k <= old(cs)@.len(),
        !has_contract_named(old(cs)@, name@) ==> ({
            let e = final(cs)@[k as int];
            &&& final(cs)@ == old(cs)@.insert(k as int, e)
            &&& contract_view(e) == (
                name@,
                has_contract_attr,
                false,
                Seq::<(Seq<char>, usize, bool)>::empty(),
                storage@.map_values(|t: StorageType| storage_view(t)),
            )
        }),
{
    let ghost c0 = cs@;
    let mut pos: usize = 0;
    while pos < cs.len() && str_lt(cs[pos].struct_name.as_str(), name.as_str())
        invariant
            pos <= cs@.len(),
            cs@ == c0,
            names_ascending(c0),
            forall|j: int| 0 <= j < pos ==> seq_lt(#[trigger] c0[j].struct_name@, name@),
        decreases cs.len() - pos,
    {
        pos = pos + 1;
    }
    // Every entry from `pos` on is not before `name`.
    assert forall|j: int| pos <= j < c0.len() implies !seq_lt(#[trigger] c0[j].struct_name@, name@) by {
        if j > pos {
            lemma_seq_lt_asymmetric(c0[pos as int].struct_name@, c0[j].struct_name@);
            if seq_lt(c0[j].struct_name@, name@) {
                lemma_seq_lt_transitive(c0[pos as int].struct_name@, c0[j].struct_name@, name@);
            }
        }
    }
    if pos < cs.len() && text_eq(cs[pos].struct_name.as_str(), name.as_str()) {
        assert(has_contract_named(c0, name@));
        return pos;
    }
    assert(!has_contract_named(c0, name@)) by {
        if has_contract_named(c0, name@) {
            let j = choose|j: int| 0 <= j < c0.len() && (#[trigger] c0[j]).struct_name@ == name@;
            crate::text::lemma_seq_lt_irreflexive(name@);
            if j >= pos {
                if pos < c0.len() {
                    lemma_seq_lt_total(c0[pos as int].struct_name@, name@);
                    if j > pos {
                        assert(seq_lt(c0[pos as int].struct_name@, c0[j].struct_name@));
                    }
                }
            }
        }
    }
    let entry = DiscoveredContract {
        struct_name: name.clone(),
        has_contract_attr,
        has_contractimpl: false,
        fns: Vec::new(),
        storage_types: copy_storage_types(storage),
    };
    cs.insert(pos, entry);
    assert forall|i: int, j: int| 0 <= i < j < cs@.len() implies seq_lt(
        #[trigger] cs@[i].struct_name@,
        #[trigger] cs@[j].struct_name@,
    ) by {
        if j < pos {
            assert(cs@[i] == c0[i] && cs@[j] == c0[j]);
        } else if j == pos {
            assert(cs@[i] == c0[i]);
        } else if i < pos {
            assert(cs@[i] == c0[i] && cs@[j] == c0[j - 1]);
            lemma_seq_lt_total(c0[j - 1].struct_name@, name@);
            lemma_seq_lt_transitive(c0[i].struct_name@, name@, c0[j - 1].struct_name@);
        } else if i == pos {
            assert(cs@[j] == c0[j - 1]);
            lemma_seq_lt_total(c0[j - 1].struct_name@, name@);
        } else {
            assert(cs@[i] == c0[i - 1] && cs@[j] == c0[j - 1]);
        }
    }
    pos
}

/// The discovered contracts after the first `n` items of phase two, as a
/// predicate on one contract name.
pub open spec fn phase_two_view(items: Seq<AstItem>, n: int, name: Seq<char>) -> ContractView {
    (
        name,
        contract_structs(items).contains(name),
        contractimpl_names(items.take(n)).contains(name),
        contract_fns(items.take(n), name),
        storage_types_of(items),
    )
}

/// The contracts a file defines, by ascending name.  Each function is
/// reported on the line of its name, which is at least 1 wherever the model
/// records lines from 1, as the models of `parse_source` do.
pub fn discover_contracts(file: &AstFile) -> (r: Vec<DiscoveredContract>)
    ensures
        is_discovery_of(r@, file.items@),
        file_lines_positive(*file) ==> forall|i: int, k: int| 0 <= i < r@.len() && 0 <= k < r@[i].fns@.len()
            ==> #[trigger] r@[i].fns@[k].line >= 1,
{
    let items = &file.items;
    let storage = collect_storage_types(items);
    let ghost sv = storage_types_of(items@);
    let ghost structs = contract_structs(items@);
    let mut cs: Vec<DiscoveredContract> = Vec::new();
    // Phase one: an entry for every `#[contract]` struct.
    let mut i: usize = 0;
    while i < items.len()
        invariant
            i <= items@.len(),
            storage@.map_values(|t: StorageType| storage_view(t)) == sv,
            sv == storage_types_of(items@),
            structs == contract_structs(items@),
            names_ascending(cs@),
            forall|n: Seq<char>| #[trigger] has_contract_named(cs@, n) <==> contract_structs(items@.take(i as int)).contains(n),
            forall|j: int| 0 <= j < cs@.len() ==> contract_view(#[trigger] cs@[j]) == (
                cs@[j].struct_name@,
                true,
                false,
                Seq::<(Seq<char>, usize, bool)>::empty(),
                sv,
            ),
        decreases items.len() - i,
    {
        assert(items@.take(i + 1).drop_last() =~= items@.take(i as int));
        assert(items@.take(i + 1).last() == items@[i as int]);
        let ghost before = cs@;
        match &items[i] {
            AstItem::Struct { attrs, ident, .. } => {
                if has_attr_named_exec(attrs, "contract") {
                    let k = entry_for(&mut cs, ident, true, &storage);
                    proof {
                        if !has_contract_named(before, ident@) {
                            before.insert_ensures(k as int, cs@[k as int]);
                        }
                    }
                    proof {
                        lemma_entry_names(before, cs@, k as int, ident@);
                        assert(contract_structs(items@.take(i + 1)) =~= contract_structs(items@.take(i as int)).push(ident@));
                        assert forall|n: Seq<char>| #[trigger] has_contract_named(cs@, n) <==> contract_structs(
                            items@.take(i + 1),
                        ).contains(n) by {
                            lemma_push_contains(contract_structs(items@.take(i as int)), ident@, n);
                        }
                    }
                    assert forall|j: int| 0 <= j < cs@.len() implies contract_view(#[trigger] cs@[j]) == (
                        cs@[j].struct_name@,
                        true,
                        false,
                        Seq::<(Seq<char>, usize, bool)>::empty(),
                        sv,
                    ) by {
                        if !has_contract_named(before, ident@) && j != k {
                            if j < k {
                                assert(cs@[j] == before[j]);
                            } else {
                                assert(cs@[j] == before[j - 1]);
                            }
                        }
                    }
                } else {
                    assert(contract_structs(items@.take(i + 1)) =~= contract_structs(items@.take(i as int)));
                }
            },
            _ => {
                assert(contract_structs(items@.take(i + 1)) =~= contract_structs(items@.take(i as int)));
            },
        }
        i = i + 1;
    }
    assert(items@.take(items@.len() as int) =~= items@);
    // Phase two: the `#[contractimpl]` blocks.
    let mut i: usize = 0;
    assert(items@.take(0) =~= Seq::<AstItem>::empty());
    assert(phase_two_inv(cs@, items@, 0)) by {
        assert forall|j: int| 0 <= j < cs@.len() implies contract_view(#[trigger] cs@[j]) == phase_two_view(
            items@,
            0,
            cs@[j].struct_name@,
        ) by {
            assert(contract_structs(items@).contains(cs@[j].struct_name@)) by {
                assert(has_contract_named(cs@, cs@[j].struct_name@));
            }
        }
    }
    while i < items.len()
        invariant
            i <= items@.len(),
            storage@.map_values(|t: StorageType| storage_view(t)) == sv,
            sv == storage_types_of(items@),
            structs == contract_structs(items@),
            phase_two_inv(cs@, items@, i as int),
        decreases items.len() - i,
    {
        assert(items@.take(i + 1).drop_last() =~= items@.take(i as int));
        assert(items@.take(i + 1).last() == items@[i as int]);
        let ghost before = cs@;
        match &items[i] {
            AstItem::Impl { attrs, self_ty, items: its, .. } => {
                if has_attr_named_exec(attrs, "contractimpl") {
                    let name = impl_contract_name_exec(self_ty);
                    let k = entry_for(&mut cs, &name, false, &storage);
                    let ghost mid = cs@;
                    let mut entry = cs.remove(k);
                    entry.has_contractimpl = true;
                    let ghost fns0 = entry.fns@.map_values(|f: DiscoveredFunction| fn_view(f));
                    let mut m: usize = 0;
                    while m < its.len()
                        invariant
                            m <= its@.len(),
                            entry.fns@.map_values(|f: DiscoveredFunction| fn_view(f)) == fns0 + impl_fns(its@.take(m as int)),
                            entry.struct_name@ == name@,
                            k < mid.len(),
                            entry.has_contractimpl,
                            entry.has_contract_attr == mid[k as int].has_contract_attr,
                            entry.storage_types == mid[k as int].storage_types,
                        decreases its.len() - m,
                    {
                        assert(its@.take(m + 1).drop_last() =~= its@.take(m as int));
                        assert(its@.take(m + 1).last() == its@[m as int]);
                        let ghost fb = entry.fns@.map_values(|f: DiscoveredFunction| fn_view(f));
                        match &its[m] {
                            AstImplItem::Fn { is_public, sig, .. } => {
                                if *is_public {
                                    let f = DiscoveredFunction {
                                        name: sig.ident.clone(),
                                        line: sig.ident_line,
                                        is_reserved: is_reserved_exec(sig.ident.as_str()),
                                    };
                                    entry.fns.push(f);
                                    assert(entry.fns@.map_values(|f: DiscoveredFunction| fn_view(f)) =~= fb.push(
                                        (sig.ident@, sig.ident_line, is_reserved_name(sig.ident@)),
                                    ));
                                }
                            },
                            _ => {},
                        }
                        assert(entry.fns@.map_values(|f: DiscoveredFunction| fn_view(f)) =~= fns0 + impl_fns(its@.take(m + 1)));
                        m = m + 1;
                    }
                    assert(its@.take(its@.len() as int) =~= its@);
                    let ghost e = entry;
                    cs.insert(k, entry);
                    proof {
                        lemma_phase_two_step(items@, i as int, before, mid, cs@, k as int, name@, e, its@, sv, structs);
                    }
                } else {
                    proof {
                        lemma_phase_two_skip(items@, i as int, cs@);
                    }
                }
            },
            _ => {
                proof {
                    lemma_phase_two_skip(items@, i as int, cs@);
                }
            },
        }
        i = i + 1;
    }
    assert(items@.take(items@.len() as int) =~= items@);
    proof {
        if file_lines_positive(*file) {
            assert forall|i: int, k: int| 0 <= i < cs@.len() && 0 <= k < cs@[i].fns@.len() implies #[trigger] cs@[i].fns@[k].line
                >= 1 by {
                let name = cs@[i].struct_name@;
                assert(contract_view(cs@[i]).3 == contract_fns(items@, name));
                assert(cs@[i].fns@.map_values(|f: DiscoveredFunction| fn_view(f))[k] == fn_view(cs@[i].fns@[k]));
                lemma_contract_fns_lines(items@, name);
            }
        }
    }
    cs
}

/// The functions of an `impl` block whose lines are all at least 1 are
/// reported on lines of at least 1.
proof fn lemma_impl_fns_lines(its: Seq<AstImplItem>)
    requires
        impl_items_lines_positive(its),
    ensures
        forall|k: int| 0 <= k < impl_fns(its).len() ==> (#[trigger] impl_fns(its)[k]).1 >= 1,
    decreases its.len(),
{
    if its.len() > 0 {
        lemma_impl_fns_lines(its.drop_last());
        let head = impl_fns(its.drop_last());
        assert(impl_item_lines_positive(its.last()));
        assert forall|k: int| 0 <= k < impl_fns(its).len() implies (#[trigger] impl_fns(its)[k]).1 >= 1 by {
            if k < head.len() {
                assert(impl_fns(its)[k] == head[k]);
            } else {
                match its.last() {
                    AstImplItem::Fn { sig, .. } => assert(sig_lines_positive(sig)),
                    _ => {},
                }
            }
        }
    }
}

/// The functions of contract `name` in items whose lines are all at least 1
/// are reported on lines of at least 1.
proof fn lemma_contract_fns_lines(items: Seq<AstItem>, name: Seq<char>)
    requires
        items_lines_positive(items),
    ensures
        forall|k: int| 0 <= k < contract_fns(items, name).len() ==> (#[trigger] contract_fns(items, name)[k]).1 >= 1,
    decreases items.len(),
{
    if items.len() > 0 {
        lemma_contract_fns_lines(items.drop_last(), name);
        let head = contract_fns(items.drop_last(), name);
        assert(item_lines_positive(items.last()));
        match items.last() {
            AstItem::Impl { items: its, .. } => {
                lemma_impl_fns_lines(its@);
            },
            _ => {},
        }
        assert forall|k: int| 0 <= k < contract_fns(items, name).len() implies (#[trigger] contract_fns(
            items,
            name,
        )[k]).1 >= 1 by {
            if k < head.len() {
                assert(contract_fns(items, name)[k] == head[k]);
            }
        }
    }
}

/// A sequence with `x` pushed contains exactly what it contained, and `x`.
proof fn lemma_push_contains<A>(s: Seq<A>, x: A, n: A)
    ensures
        s.push(x).contains(n) <==> (s.contains(n) || n == x),
{
    if s.contains(n) {
        let q = choose|q: int| 0 <= q < s.len() && s[q] == n;
        assert(s.push(x)[q] == n);
    }
    if n == x {
        assert(s.push(x)[s.len() as int] == n);
    }
    if s.push(x).contains(n) {
        let q = choose|q: int| 0 <= q < s.push(x).len() && s.push(x)[q] == n;
        if q < s.len() {
            assert(s[q] == n);
        }
    }
}

/// After [`entry_for`], the names present are those before and the new name.
proof fn lemma_entry_names(before: Seq<DiscoveredContract>, after: Seq<DiscoveredContract>, k: int, name: Seq<char>)
    requires
        0 <= k < after.len(),
        k <= before.len(),
        after[k].struct_name@ == name,
        has_contract_named(before, name) ==> after == before,
        !has_contract_named(before, name) ==> after == before.insert(k, after[k]),
    ensures
        forall|n: Seq<char>| #[trigger] has_contract_named(after, n) <==> (has_contract_named(before, n) || n == name),
{
    if !has_contract_named(before, name) {
        before.insert_ensures(k, after[k]);
    }
    assert forall|n: Seq<char>| #[trigger] has_contract_named(after, n) <==> (has_contract_named(before, n) || n == name) by {
        if has_contract_named(after, n) && !has_contract_named(before, name) {
            let j = choose|j: int| 0 <= j < after.len() && (#[trigger] after[j]).struct_name@ == n;
            if j < k {
                assert(after[j] == before[j]);
            } else if j > k {
                assert(after[j] == before[j - 1]);
            }
        }
        if has_contract_named(before, n) && !has_contract_named(before, name) {
            let j = choose|j: int| 0 <= j < before.len() && (#[trigger] before[j]).struct_name@ == n;
            if j < k {
                assert(after[j] == before[j]);
            } else {
                assert(after[j + 1] == before[j]);
            }
        }
        if n == name {
            assert(after[k].struct_name@ == n);
        }
    }
}

/// The invariant of the second phase after the first `n` items.
pub open spec fn phase_two_inv(cs: Seq<DiscoveredContract>, items: Seq<AstItem>, n: int) -> bool {
    &&& names_ascending(cs)
    &&& forall|x: Seq<char>| #[trigger] has_contract_named(cs, x) <==> (contract_structs(items).contains(x)
        || contractimpl_names(items.take(n)).contains(x))
    &&& forall|j: int| 0 <= j < cs.len() ==> contract_view(#[trigger] cs[j]) == phase_two_view(items, n, cs[j].struct_name@)
}

proof fn lemma_contract_fns_absent(items: Seq<AstItem>, name: Seq<char>)
    requires
        !contractimpl_names(items).contains(name),
    ensures
        contract_fns(items, name) == Seq::<(Seq<char>, usize, bool)>::empty(),
    decreases items.len(),
{
    if items.len() > 0 {
        let p = items.drop_last();
        assert forall|j: int| 0 <= j < contractimpl_names(p).len() implies contractimpl_names(p)[j] != name by {
            assert(contractimpl_names(items)[j] == contractimpl_names(p)[j]);
        }
        lemma_contract_fns_absent(p, name);
        match items.last() {
            AstItem::Impl { attrs, self_ty, .. } => {
                if has_attr_named(attrs@, "contractimpl"@) {
                    assert(contractimpl_names(items).last() == impl_contract_name(self_ty));
                }
            },
            _ => {},
        }
    }
}

proof fn lemma_phase_two_skip(items: Seq<AstItem>, i: int, cs: Seq<DiscoveredContract>)
    requires
        0 <= i < items.len(),
        phase_two_inv(cs, items, i),
        match items[i] {
            AstItem::Impl { attrs, .. } => !has_attr_named(attrs@, "contractimpl"@),
            _ => true,
        },
    ensures
        phase_two_inv(cs, items, i + 1),
{
    assert(items.take(i + 1).drop_last() =~= items.take(i));
    assert(items.take(i + 1).last() == items[i]);
    assert(contractimpl_names(items.take(i + 1)) =~= contractimpl_names(items.take(i)));
    assert forall|j: int| 0 <= j < cs.len() implies contract_view(#[trigger] cs[j]) == phase_two_view(
        items,
        i + 1,
        cs[j].struct_name@,
    ) by {
        assert(contract_fns(items.take(i + 1), cs[j].struct_name@) =~= contract_fns(items.take(i), cs[j].struct_name@));
    }
}

proof fn lemma_phase_two_step(
    items: Seq<AstItem>,
    i: int,
    before: Seq<DiscoveredContract>,
    mid: Seq<DiscoveredContract>,
    after: Seq<DiscoveredContract>,
    k: int,
    name: Seq<char>,
    e: DiscoveredContract,
    its: Seq<AstImplItem>,
    sv: Seq<(Seq<char>, Seq<char>)>,
    structs: Seq<Seq<char>>,
)
    requires
        0 <= i < items.len(),
        sv == storage_types_of(items),
        structs == contract_structs(items),
        items[i] matches AstItem::Impl { attrs, self_ty, items: v, .. } && has_attr_named(attrs@, "contractimpl"@)
            && impl_contract_name(self_ty) == name && v@ == its,
        phase_two_inv(before, items, i),
        names_ascending(mid),
        0 <= k < mid.len(),
        k <= before.len(),
        mid[k].struct_name@ == name,
        has_contract_named(before, name) ==> mid == before,
        !has_contract_named(before, name) ==> mid == before.insert(k, mid[k]) && contract_view(mid[k]) == (
            name,
            false,
            false,
            Seq::<(Seq<char>, usize, bool)>::empty(),
            sv,
        ),
        after == mid.remove(k).insert(k, e),
        e.struct_name@ == name,
        e.has_contractimpl,
        e.has_contract_attr == mid[k].has_contract_attr,
        e.storage_types == mid[k].storage_types,
        contract_view(e).3 == contract_view(mid[k]).3 + impl_fns(its),
    ensures
        phase_two_inv(after, items, i + 1),
{
    assert(items.take(i + 1).drop_last() =~= items.take(i));
    assert(items.take(i + 1).last() == items[i]);
    assert(contractimpl_names(items.take(i + 1)) =~= contractimpl_names(items.take(i)).push(name));
    mid.remove_ensures(k);
    mid.remove(k).insert_ensures(k, e);
    if !has_contract_named(before, name) {
        before.insert_ensures(k, mid[k]);
    }
    assert(after.len() == mid.len());
    assert forall|j: int| 0 <= j < after.len() && j != k implies after[j] == mid[j] by {
        if j < k {
            assert(after[j] == mid.remove(k)[j]);
        } else {
            assert(after[j] == mid.remove(k)[j - 1]);
        }
    }
    assert(after[k] == e);
    // `mid` relates to `before`: the entry at `k` is new or was there.
    assert forall|j: int| 0 <= j < mid.len() && j != k implies contract_view(#[trigger] mid[j])
        == phase_two_view(items, i, mid[j].struct_name@) && mid[j].struct_name@ != name by {
        if has_contract_named(before, name) {
            assert(mid[j] == before[j]);
            if mid[j].struct_name@ == name {
                crate::text::lemma_seq_lt_irreflexive(name);
            }
        } else {
            if j < k {
                assert(mid[j] == before[j]);
            } else {
                assert(mid[j] == before[j - 1]);
            }
        }
    }
    if !has_contract_named(before, name) {
        assert(!structs.contains(name));
        assert(!contractimpl_names(items.take(i)).contains(name));
        lemma_contract_fns_absent(items.take(i), name);
    } else {
        let j0 = choose|j: int| 0 <= j < before.len() && (#[trigger] before[j]).struct_name@ == name;
        if j0 != k {
            assert(mid[j0] == before[j0]);
            crate::text::lemma_seq_lt_irreflexive(name);
        }
        assert(contract_view(mid[k]) == phase_two_view(items, i, name));
    }
    assert forall|j: int| 0 <= j < after.len() implies contract_view(#[trigger] after[j]) == phase_two_view(
        items,
        i + 1,
        after[j].struct_name@,
    ) by {
        let n = after[j].struct_name@;
        lemma_push_contains(contractimpl_names(items.take(i)), name, n);
        assert(contract_fns(items.take(i + 1), n) =~= contract_fns(items.take(i), n) + if n == name {
            impl_fns(its)
        } else {
            Seq::<(Seq<char>, usize, bool)>::empty()
        });
        if j != k {
            assert(contract_view(after[j]) == contract_view(mid[j]));
            assert(contract_view(mid[j]) == phase_two_view(items, i, mid[j].struct_name@));
        } else {
            assert(contract_view(after[k]).4 == contract_view(mid[k]).4);
        }
    }
    lemma_entry_names(before, mid, k, name);
    assert forall|x: Seq<char>| #[trigger] has_contract_named(after, x) <==> has_contract_named(mid, x) by {
        if has_contract_named(after, x) {
            let j = choose|j: int| 0 <= j < after.len() && (#[trigger] after[j]).struct_name@ == x;
            if j != k {
                assert(mid[j] == after[j]);
            } else {
                assert(mid[k].struct_name@ == x);
            }
        }
        if has_contract_named(mid, x) {
            let j = choose|j: int| 0 <= j < mid.len() && (#[trigger] mid[j]).struct_name@ == x;
            if j != k {
                assert(mid[j] == after[j]);
            } else {
                assert(after[k].struct_name@ == x);
            }
        }
    }
    assert forall|x: Seq<char>| #[trigger] has_contract_named(after, x) <==> (contract_structs(items).contains(x)
        || contractimpl_names(items.take(i + 1)).contains(x)) by {
        lemma_push_contains(contractimpl_names(items.take(i)), name, x);
    }
    assert forall|p: int, q: int| 0 <= p < q < after.len() implies seq_lt(
        #[trigger] after[p].struct_name@,
        #[trigger] after[q].struct_name@,
    ) by {
        assert(after[p].struct_name@ == mid[p].struct_name@);
        assert(after[q].struct_name@ == mid[q].struct_name@);
    }
}

} // verus!
