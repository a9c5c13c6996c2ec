//! The ownership rule of a pack: a bundled package belongs to at most one
//! module. Every package that breaks the rule is found and reported.

use crate::dedup::{
    lemma_stable_dedup_keeps_first_occurrences, lemma_stable_dedup_push, stable_dedup,
};
use crate::text::{contains_string, lemma_strings_push, strings};
use crate::pack_config::{modules_view, Module, ModuleView, PackConfig};
use vstd::prelude::*;
use vstd::string::*;

verus! {

/// A package that modules of different names claim, with those names.
#[derive(Debug)]
pub struct OwnershipConflict {
    pub package: String,
    pub modules: Vec<String>,
}

/// What an `OwnershipConflict` holds, as mathematical values.
pub struct ConflictView {
    pub package: Seq<char>,
    pub modules: Seq<Seq<char>>,
}

impl View for OwnershipConflict {
    type V = ConflictView;

    open spec fn view(&self) -> ConflictView {
        ConflictView { package: self.package@, modules: strings(self.modules@) }
    }
}

/// What a list of conflicts holds.
pub open spec fn conflicts_view(list: Seq<OwnershipConflict>) -> Seq<ConflictView> {
    list.map_values(|c: OwnershipConflict| c@)
}

/// The test "this module bundles `package`".
pub open spec fn bundles(package: Seq<char>) -> spec_fn(ModuleView) -> bool {
    |m: ModuleView| m.packages.contains(package)
}

/// The name of a module.
pub open spec fn module_name() -> spec_fn(ModuleView) -> Seq<char> {
    |m: ModuleView| m.name
}

/// The names under which `package` is bundled: the names of the modules that
/// bundle it, each name once, in the order of the modules.
pub open spec fn owners(modules: Seq<ModuleView>, package: Seq<char>) -> Seq<Seq<char>> {
    stable_dedup(modules.filter(bundles(package)).map_values(module_name()))
}

/// Every package that some module bundles, module after module.
pub open spec fn bundled_packages(modules: Seq<ModuleView>) -> Seq<Seq<char>> {
    modules.map_values(|m: ModuleView| m.packages).flatten()
}

/// The test "`package` has more than one owner".
pub open spec fn contested(modules: Seq<ModuleView>) -> spec_fn(Seq<char>) -> bool {
    |package: Seq<char>| owners(modules, package).len() > 1
}

/// The conflict over `package`.
pub open spec fn conflict_over(modules: Seq<ModuleView>) -> spec_fn(Seq<char>) -> ConflictView {
    |package: Seq<char>| ConflictView { package, modules: owners(modules, package) }
}

/// All conflicts of a pack: one for each package with more than one owner,
/// in the order in which the packages are first bundled.
pub open spec fn conflicts(modules: Seq<ModuleView>) -> Seq<ConflictView> {
    stable_dedup(bundled_packages(modules)).filter(contested(modules)).map_values(
        conflict_over(modules),
    )
}

/// The module at index `i` bundles `package`.
pub open spec fn claims(modules: Seq<ModuleView>, i: int, package: Seq<char>) -> bool {
    0 <= i < modules.len() && modules[i].packages.contains(package)
}

/// The rule of a pack: whatever modules bundle one package, they have one
/// name. A package may have no owner, never two.
pub open spec fn exclusive_ownership(modules: Seq<ModuleView>) -> bool {
    forall|i: int, j: int, package: Seq<char>|
        #[trigger] claims(modules, i, package) && #[trigger] claims(modules, j, package)
            ==> modules[i].name == modules[j].name
}

/// No two modules have the same name.
pub open spec fn unique_names(modules: Seq<ModuleView>) -> bool {
    forall|i: int, j: int|
        0 <= i < j < modules.len() ==> (#[trigger] modules[i]).name != (#[trigger] modules[j]).name
}

/// Where no two modules have the same name, a pack keeps the ownership rule
/// exactly if every package is bundled by at most one module.
pub proof fn lemma_exclusive_ownership_by_module(modules: Seq<ModuleView>)
    requires
        unique_names(modules),
    ensures
        exclusive_ownership(modules) <==> forall|i: int, j: int, package: Seq<char>|
            #[trigger] claims(modules, i, package) && #[trigger] claims(modules, j, package) ==> i
                == j,
{
    if exclusive_ownership(modules) {
        assert forall|i: int, j: int, package: Seq<char>|
            #[trigger] claims(modules, i, package) && #[trigger] claims(
                modules,
                j,
                package,
            ) implies i == j by {
            if i < j {
                assert(modules[i].name != modules[j].name);
            } else if j < i {
                assert(modules[j].name != modules[i].name);
            }
        }
    }
}

/// A name is an owner of `package` exactly if a module of that name bundles it.
pub proof fn lemma_owners(modules: Seq<ModuleView>, package: Seq<char>, name: Seq<char>)
    ensures
        owners(modules, package).contains(name) <==> exists|i: int|
            #[trigger] claims(modules, i, package) && modules[i].name == name,
{
    let claimants = modules.filter(bundles(package));
    let names = claimants.map_values(module_name());
    lemma_stable_dedup_keeps_first_occurrences(names);
    if names.contains(name) {
        let k = choose|k: int| 0 <= k < names.len() && names[k] == name;
        assert(claimants.contains(claimants[k]));
        modules.lemma_filter_contains_rev(bundles(package), claimants[k]);
        modules.lemma_filter_pred(bundles(package), k);
        let i = choose|i: int| 0 <= i < modules.len() && modules[i] == claimants[k];
        assert(claims(modules, i, package) && modules[i].name == name);
    }
    if exists|i: int| #[trigger] claims(modules, i, package) && modules[i].name == name {
        let i = choose|i: int| #[trigger] claims(modules, i, package) && modules[i].name == name;
        modules.lemma_filter_contains(bundles(package), i);
        let k = choose|k: int| 0 <= k < claimants.len() && claimants[k] == modules[i];
        assert(names[k] == name);
    }
}

/// A package is among the bundled packages exactly if some module bundles it.
pub proof fn lemma_bundled_packages(modules: Seq<ModuleView>, package: Seq<char>)
    ensures
        bundled_packages(modules).contains(package) <==> exists|i: int|
            #[trigger] claims(modules, i, package),
    decreases modules.len(),
{
    let lists = modules.map_values(|m: ModuleView| m.packages);
    if modules.len() == 0 {
        assert(lists.flatten() =~= Seq::<Seq<char>>::empty());
    } else {
        let front = modules.drop_last();
        let front_lists = front.map_values(|m: ModuleView| m.packages);
        let last = modules.last().packages;
        lemma_bundled_packages(front, package);
        assert(lists =~= front_lists.push(last));
        front_lists.lemma_flatten_push(last);
        let whole = front_lists.flatten() + last;
        if whole.contains(package) {
            let k = choose|k: int| 0 <= k < whole.len() && whole[k] == package;
            if k < front_lists.flatten().len() {
                assert(front_lists.flatten()[k] == package);
                let i = choose|i: int| #[trigger] claims(front, i, package);
                assert(claims(modules, i, package));
            } else {
                assert(last[k - front_lists.flatten().len()] == package);
                assert(claims(modules, modules.len() - 1, package));
            }
        }
        if exists|i: int| #[trigger] claims(modules, i, package) {
            let i = choose|i: int| #[trigger] claims(modules, i, package);
            if i < front.len() {
                assert(claims(front, i, package));
                let k = choose|k: int|
                    0 <= k < front_lists.flatten().len() && front_lists.flatten()[k] == package;
                assert(whole[k] == package);
            } else {
                let k = choose|k: int| 0 <= k < last.len() && last[k] == package;
                assert(whole[front_lists.flatten().len() + k] == package);
            }
        }
    }
}

/// The law of the search: a pack is free of conflicts exactly if it keeps the
/// ownership rule.
pub proof fn lemma_no_conflicts_iff_exclusive(modules: Seq<ModuleView>)
    ensures
        conflicts(modules).len() == 0 <==> exclusive_ownership(modules),
{
    let candidates = stable_dedup(bundled_packages(modules));
    let hits = candidates.filter(contested(modules));
    lemma_stable_dedup_keeps_first_occurrences(bundled_packages(modules));
    if hits.len() > 0 && exclusive_ownership(modules) {
        let package = hits[0];
        candidates.lemma_filter_pred(contested(modules), 0);
        let names = owners(modules, package);
        lemma_stable_dedup_keeps_first_occurrences(
            modules.filter(bundles(package)).map_values(module_name()),
        );
        assert(names.contains(names[0]) && names.contains(names[1]));
        lemma_owners(modules, package, names[0]);
        lemma_owners(modules, package, names[1]);
        let i = choose|i: int| #[trigger] claims(modules, i, package) && modules[i].name == names[0];
        let j = choose|j: int| #[trigger] claims(modules, j, package) && modules[j].name == names[1];
        assert(claims(modules, i, package) && claims(modules, j, package));
        assert(false);
    }
    if hits.len() == 0 {
        assert forall|i: int, j: int, package: Seq<char>|
            #[trigger] claims(modules, i, package) && #[trigger] claims(
                modules,
                j,
                package,
            ) implies modules[i].name == modules[j].name by {
            if modules[i].name != modules[j].name {
                let names = owners(modules, package);
                lemma_owners(modules, package, modules[i].name);
                lemma_owners(modules, package, modules[j].name);
                let a = choose|a: int| 0 <= a < names.len() && names[a] == modules[i].name;
                let b = choose|b: int| 0 <= b < names.len() && names[b] == modules[j].name;
                assert(a != b);
                lemma_bundled_packages(modules, package);
                assert(candidates.contains(package));
                let k = choose|k: int| 0 <= k < candidates.len() && candidates[k] == package;
                candidates.lemma_filter_contains(contested(modules), k);
                assert(hits.contains(package));
                assert(false);
            }
        }
    }
}

/// Filtering keeps a sequence free of repeats.
pub proof fn lemma_filter_keeps_distinct<T>(s: Seq<T>, test: spec_fn(T) -> bool)
    requires
        s.no_duplicates(),
    ensures
        s.filter(test).no_duplicates(),
    decreases s.len(),
{
    reveal(Seq::filter);
    if s.len() > 0 {
        let front = s.drop_last();
        lemma_filter_keeps_distinct(front, test);
        let kept = front.filter(test);
        if test(s.last()) {
            assert forall|i: int, j: int|
                0 <= i < kept.len() + 1 && 0 <= j < kept.len() + 1 && i != j implies kept.push(
                s.last(),
            )[i] != kept.push(s.last())[j] by {
                if i < kept.len() && j < kept.len() {
                } else {
                    let k = if i < kept.len() {
                        i
                    } else {
                        j
                    };
                    assert(kept.contains(kept[k]));
                    front.lemma_filter_contains_rev(test, kept[k]);
                    let m = choose|m: int| 0 <= m < front.len() && front[m] == kept[k];
                    assert(s[m] == kept[k]);
                }
            }
        }
    }
}

/// The law of the whole search: every conflict is about a package with more
/// than one owner and names all its owners; every such package has its
/// conflict; and no package has two.
pub proof fn lemma_conflicts_are_complete(modules: Seq<ModuleView>)
    ensures
        forall|k: int|
            0 <= k < conflicts(modules).len() ==> {
                &&& (#[trigger] conflicts(modules)[k]).modules == owners(
                    modules,
                    conflicts(modules)[k].package,
                )
                &&& conflicts(modules)[k].modules.len() > 1
            },
        forall|package: Seq<char>|
            #[trigger] owners(modules, package).len() > 1 ==> exists|k: int|
                0 <= k < conflicts(modules).len() && (#[trigger] conflicts(modules)[k]).package
                    == package,
        forall|j: int, k: int|
            0 <= j < k < conflicts(modules).len() ==> (#[trigger] conflicts(modules)[j]).package != (
            #[trigger] conflicts(modules)[k]).package,
{
    let candidates = stable_dedup(bundled_packages(modules));
    let hits = candidates.filter(contested(modules));
    let all = conflicts(modules);
    lemma_stable_dedup_keeps_first_occurrences(bundled_packages(modules));
    lemma_filter_keeps_distinct(candidates, contested(modules));
    assert forall|k: int| 0 <= k < all.len() implies {
        &&& (#[trigger] all[k]).modules == owners(modules, all[k].package)
        &&& all[k].modules.len() > 1
    } by {
        candidates.lemma_filter_pred(contested(modules), k);
    }
    assert forall|package: Seq<char>| #[trigger] owners(modules, package).len() > 1 implies exists|
        k: int,
    |
        0 <= k < all.len() && (#[trigger] all[k]).package == package by {
        let names = owners(modules, package);
        assert(names.contains(names[0]));
        lemma_owners(modules, package, names[0]);
        lemma_bundled_packages(modules, package);
        assert(candidates.contains(package));
        let j = choose|j: int| 0 <= j < candidates.len() && candidates[j] == package;
        candidates.lemma_filter_contains(contested(modules), j);
        let k = choose|k: int| 0 <= k < hits.len() && hits[k] == package;
        assert(all[k].package == package);
    }
    assert forall|j: int, k: int| 0 <= j < k < all.len() implies (#[trigger] all[j]).package != (
    #[trigger] all[k]).package by {
        assert(hits[j] != hits[k]);
    }
}

/// A name between backquotes.
pub open spec fn quoted(name: Seq<char>) -> Seq<char> {
    "`"@ + name + "`"@
}

/// The names, each between backquotes, with a comma and a space between them.
pub open spec fn quoted_list(names: Seq<Seq<char>>) -> Seq<char>
    decreases names.len(),
{
    if names.len() == 0 {
        Seq::empty()
    } else if names.len() == 1 {
        quoted(names[0])
    } else {
        quoted_list(names.drop_last()) + ", "@ + quoted(names.last())
    }
}

/// The sentence that reports a conflict.
pub open spec fn conflict_message(conflict: ConflictView) -> Seq<char> {
    "Package `"@ + conflict.package + "` is used by multiple modules: "@ + quoted_list(
        conflict.modules,
    )
}

/// The sentences that report the conflicts of a pack, in the order of the
/// conflicts.
pub open spec fn conflict_messages(modules: Seq<ModuleView>) -> Seq<Seq<char>> {
    conflicts(modules).map_values(|c: ConflictView| conflict_message(c))
}

impl OwnershipConflict {
    /// The sentence that reports the conflict.
    pub fn describe(&self) -> (text: String)
        ensures
            text@ == conflict_message(self@),
    {
        let mut list = String::new();
        let mut i: usize = 0;
        let ghost names = strings(self.modules@);
        assert(names.take(0) =~= Seq::<Seq<char>>::empty());
        while i < self.modules.len()
            invariant
                i <= self.modules.len(),
                names == strings(self.modules@),
                list@ == quoted_list(names.take(i as int)),
            decreases self.modules.len() - i,
        {
            let ghost before = list@;
            if i > 0 {
                list.append(", ");
            }
            list.append("`");
            list.append(self.modules[i].as_str());
            list.append("`");
            proof {
                let longer = names.take(i + 1);
                assert(longer.drop_last() =~= names.take(i as int));
                assert(longer.last() == self.modules@[i as int]@);
                if i == 0 {
                    assert(list@ =~= quoted(longer[0]));
                } else {
                    assert(list@ =~= before + ", "@ + quoted(longer.last()));
                }
            }
            i += 1;
        }
        assert(names.take(self.modules@.len() as int) =~= names);
        let mut text = String::from_str("Package `");
        text.append(self.package.as_str());
        text.append("` is used by multiple modules: ");
        text.append(list.as_str());
        text
    }
}

/// The names under which `package` is bundled.
fn owners_of(modules: &Vec<Module>, package: &String) -> (names: Vec<String>)
    ensures
        strings(names@) == owners(modules_view(modules@), package@),
{
    let ghost all = modules_view(modules@);
    let ghost test = bundles(package@);
    let mut names: Vec<String> = Vec::new();
    let mut j: usize = 0;
    proof {
        assert(all.take(0) =~= Seq::<ModuleView>::empty());
        reveal(Seq::filter);
        assert(all.take(0).filter(test).map_values(module_name()) =~= Seq::<Seq<char>>::empty());
    }
    while j < modules.len()
        invariant
            j <= modules.len(),
            all == modules_view(modules@),
            test == bundles(package@),
            strings(names@) == stable_dedup(
                all.take(j as int).filter(test).map_values(module_name()),
            ),
        decreases modules.len() - j,
    {
        let module = &modules[j];
        let ghost claimants = all.take(j as int).filter(test);
        proof {
            assert(all.take(j + 1) =~= all.take(j as int).push(all[j as int]));
            all.take(j as int).lemma_filter_push(all[j as int], test);
        }
        if contains_string(&module.packages, package) {
            proof {
                assert(test(all[j as int]));
                assert(claimants.push(all[j as int]).map_values(module_name())
                    =~= claimants.map_values(module_name()).push(module.name@));
                lemma_stable_dedup_push(claimants.map_values(module_name()), module.name@);
            }
            if !contains_string(&names, &module.name) {
                let ghost before = names@;
                names.push(module.name.clone());
                proof {
                    lemma_strings_push(before, names@, names@[names@.len() - 1]);
                }
            }
        } else {
            assert(!test(all[j as int]));
        }
        j += 1;
    }
    assert(all.take(modules@.len() as int) =~= all);
    names
}

impl PackConfig {
    /// All conflicts of the pack. The whole pack is read: the search does not
    /// end at the first conflict.
    pub fn ownership_conflicts(&self) -> (found: Vec<OwnershipConflict>)
        ensures
            conflicts_view(found@) == conflicts(self@.modules),
    {
        let ghost all = self@.modules;
        let ghost lists = all.map_values(|m: ModuleView| m.packages);
        let ghost test = contested(all);
        let ghost make = conflict_over(all);
        let mut seen: Vec<String> = Vec::new();
        let mut found: Vec<OwnershipConflict> = Vec::new();
        let mut i: usize = 0;
        proof {
            assert(lists.take(0) =~= Seq::<Seq<Seq<char>>>::empty());
            reveal(Seq::filter);
            assert(strings(seen@) =~= Seq::<Seq<char>>::empty());
            assert(strings(seen@).filter(test).map_values(make) =~= Seq::<ConflictView>::empty());
            assert(conflicts_view(found@) =~= Seq::<ConflictView>::empty());
        }
        while i < self.modules.len()
            invariant
                i <= self.modules.len(),
                all == self@.modules,
                lists == all.map_values(|m: ModuleView| m.packages),
                test == contested(all),
                make == conflict_over(all),
                strings(seen@) == stable_dedup(lists.take(i as int).flatten()),
                conflicts_view(found@) == strings(seen@).filter(test).map_values(make),
            decreases self.modules.len() - i,
        {
            let packages = &self.modules[i].packages;
            let ghost done = lists.take(i as int).flatten();
            let mut k: usize = 0;
            proof {
                assert(strings(packages@) == lists[i as int]);
                assert(strings(packages@).take(0) =~= Seq::<Seq<char>>::empty());
                assert(done + strings(packages@).take(0) =~= done);
            }
            while k < packages.len()
                invariant
                    k <= packages.len(),
                    i < self.modules.len(),
                    all == self@.modules,
                    test == contested(all),
                    make == conflict_over(all),
                    strings(seen@) == stable_dedup(done + strings(packages@).take(k as int)),
                    conflicts_view(found@) == strings(seen@).filter(test).map_values(make),
                decreases packages.len() - k,
            {
                let package = &packages[k];
                let ghost seen_before = seen@;
                let ghost found_before = found@;
                proof {
                    lemma_stable_dedup_push(done + strings(packages@).take(k as int), package@);
                    assert((done + strings(packages@).take(k as int)).push(package@) =~= done
                        + strings(packages@).take(k + 1));
                }
                if !contains_string(&seen, package) {
                    seen.push(package.clone());
                    proof {
                        lemma_strings_push(seen_before, seen@, seen@[seen@.len() - 1]);
                        strings(seen_before).lemma_filter_push(package@, test);
                    }
                    let names = owners_of(&self.modules, package);
                    if names.len() > 1 {
                        let conflict = OwnershipConflict { package: package.clone(), modules: names };
                        found.push(conflict);
                        proof {
                            assert(test(package@));
                            assert(found@[found@.len() - 1]@ == make(package@));
                            assert(conflicts_view(found@) =~= conflicts_view(found_before).push(
                                make(package@),
                            ));
                            assert(strings(seen_before).filter(test).push(package@).map_values(make)
                                =~= strings(seen_before).filter(test).map_values(make).push(
                                make(package@),
                            ));
                        }
                    } else {
                        assert(!test(package@));
                    }
                }
                k += 1;
            }
            proof {
                assert(strings(packages@).take(packages@.len() as int) =~= strings(packages@));
                assert(lists.take(i + 1) =~= lists.take(i as int).push(lists[i as int]));
                lists.take(i as int).lemma_flatten_push(lists[i as int]);
            }
            i += 1;
        }
        assert(lists.take(self.modules@.len() as int) =~= lists);
        found
    }

    /// Checks the ownership rule. Where the pack breaks it, the result lists
    /// one sentence for each package with more than one owner.
    pub fn find_multiple_inheritance(&self) -> (outcome: Result<(), Vec<String>>)
        ensures
            outcome is Ok <==> exclusive_ownership(self@.modules),
            match outcome {
                Ok(_) => conflicts(self@.modules).len() == 0,
                Err(errors) => errors@.len() > 0 && strings(errors@) == conflict_messages(
                    self@.modules,
                ),
            },
    {
        let found = self.ownership_conflicts();
        let ghost all = conflicts(self@.modules);
        proof {
            lemma_no_conflicts_iff_exclusive(self@.modules);
        }
        let mut errors: Vec<String> = Vec::new();
        let mut i: usize = 0;
        assert(all.take(0).map_values(|c: ConflictView| conflict_message(c)) =~= strings(errors@));
        while i < found.len()
            invariant
                i <= found.len(),
                all == conflicts_view(found@),
                strings(errors@) == all.take(i as int).map_values(
                    |c: ConflictView| conflict_message(c),
                ),
            decreases found.len() - i,
        {
            let ghost before = errors@;
            let text = found[i].describe();
            errors.push(text);
            proof {
                lemma_strings_push(before, errors@, text);
                assert(all.take(i + 1).map_values(|c: ConflictView| conflict_message(c))
                    =~= all.take(i as int).map_values(|c: ConflictView| conflict_message(c)).push(
                    conflict_message(all[i as int]),
                ));
            }
            i += 1;
        }
        assert(all.take(found@.len() as int) =~= all);
        if errors.is_empty() {
            Ok(())
        } else {
            Err(errors)
        }
    }
}

} // verus!
