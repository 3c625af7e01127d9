//! What holds of every catalog that is built from a manifest and an
//! examples folder.
use vstd::prelude::*;
use crate::constants::CARGO_TOML;
use crate::models::catalog::merged;
use crate::models::example::{ExampleFileView, ExampleTypeView};
use crate::models::manifest::{features_of, parsed_manifest, DeclaredTargetView};
use crate::models::path::{
    catalog_of, classified, declared_all, expanded, nested_manifest_of, scanned, scanned_all,
    DirEntryView, NestedManifestView,
};
use crate::pathbufext::{absolutized, path_joined};
use crate::types::FailureView;

verus! {

/// One of the binaries bears the name.
pub open spec fn names_binary(bins: Seq<DeclaredTargetView>, name: Seq<char>) -> bool {
    exists|i: int| 0 <= i < bins.len() && (#[trigger] bins[i]).name == Some(name)
}

/// Whether scanning the entry can put an example under `name`: the entry is
/// at no claimed path, and is an example of that name, or a crate with
/// several binaries of which one has that name.
pub open spec fn yields(
    claimed: Seq<Seq<char>>,
    examples_path: Seq<char>,
    entry: DirEntryView,
    name: Seq<char>,
) -> bool {
    let path = path_joined(examples_path, entry.file_name);
    !claimed.contains(path) && match classified(path, entry.kind) {
        None => false,
        Some(file) => match nested_manifest_of(file, entry.kind) {
            NestedManifestView::Missing => file.name == name,
            NestedManifestView::Unreadable(_) => false,
            NestedManifestView::Content(bytes) => match parsed_manifest(bytes) {
                None => false,
                Some(manifest) => if manifest.bin.len() > 1 {
                    names_binary(manifest.bin, name)
                } else {
                    file.name == name
                },
            },
        },
    }
}

/// The binaries of a crate leave every name alone that none of them bears,
/// and put each name that one of them bears into the catalog, as a binary
/// of that crate.
pub proof fn lemma_expanded(
    files: Map<Seq<char>, ExampleFileView>,
    crate_dir: Seq<char>,
    manifest_path: Seq<char>,
    entry_point: Seq<char>,
    bins: Seq<DeclaredTargetView>,
)
    ensures
        forall|k: Seq<char>|
            #![trigger expanded(files, crate_dir, manifest_path, entry_point, bins).dom().contains(k)]
            expanded(files, crate_dir, manifest_path, entry_point, bins).dom().contains(k) <==> (
            files.dom().contains(k) || names_binary(bins, k)),
        forall|k: Seq<char>|
            #![trigger expanded(files, crate_dir, manifest_path, entry_point, bins)[k]]
            !names_binary(bins, k) ==> expanded(
                files,
                crate_dir,
                manifest_path,
                entry_point,
                bins,
            )[k] == files[k],
        forall|k: Seq<char>|
            #![trigger expanded(files, crate_dir, manifest_path, entry_point, bins)[k]]
            names_binary(bins, k) ==> {
                let e = expanded(files, crate_dir, manifest_path, entry_point, bins)[k];
                e.name == k && e.path_type == ExampleTypeView::Crate(manifest_path, Some(k))
            },
    decreases bins.len(),
{
    if bins.len() > 0 {
        let rest = bins.drop_last();
        let last = bins.last();
        lemma_expanded(files, crate_dir, manifest_path, entry_point, rest);
        let before = expanded(files, crate_dir, manifest_path, entry_point, rest);
        let after = expanded(files, crate_dir, manifest_path, entry_point, bins);
        assert forall|k: Seq<char>| names_binary(bins, k) <==> (names_binary(rest, k) || last.name
            == Some(k)) by {
            if names_binary(bins, k) {
                let i = choose|i: int| 0 <= i < bins.len() && (#[trigger] bins[i]).name == Some(k);
                if i < rest.len() {
                    assert(rest[i].name == Some(k));
                }
            }
            if names_binary(rest, k) {
                let i = choose|i: int| 0 <= i < rest.len() && (#[trigger] rest[i]).name == Some(k);
                assert(bins[i].name == Some(k));
            }
            if last.name == Some(k) {
                assert(bins[bins.len() - 1].name == Some(k));
            }
        }
        assert forall|k: Seq<char>| after.dom().contains(k) <==> (files.dom().contains(k)
            || names_binary(bins, k)) by {
            assert(before.dom().contains(k) <==> (files.dom().contains(k) || names_binary(rest, k)));
        }
        assert forall|k: Seq<char>| !names_binary(bins, k) implies after[k] == files[k] by {
            assert(before[k] == files[k]);
        }
        assert forall|k: Seq<char>| names_binary(bins, k) implies ({
            let e = after[k];
            e.name == k && e.path_type == ExampleTypeView::Crate(manifest_path, Some(k))
        }) by {
            if last.name != Some(k) {
                let e = before[k];
                assert(e.name == k && e.path_type == ExampleTypeView::Crate(manifest_path, Some(k)));
            }
        }
    } else {
        assert forall|k: Seq<char>| !names_binary(bins, k) by {}
    }
}

/// An entry that cannot put an example under `name` leaves the catalog's
/// entry of that name as it is.
pub proof fn lemma_scan_keeps(
    files: Map<Seq<char>, ExampleFileView>,
    claimed: Seq<Seq<char>>,
    examples_path: Seq<char>,
    entry: DirEntryView,
    name: Seq<char>,
)
    requires
        !yields(claimed, examples_path, entry, name),
        scanned(files, claimed, examples_path, entry) is Ok,
    ensures
        ({
            let after = scanned(files, claimed, examples_path, entry)->Ok_0;
            after.dom().contains(name) == files.dom().contains(name) && after[name] == files[name]
        }),
{
    let path = path_joined(examples_path, entry.file_name);
    if !claimed.contains(path) {
        match classified(path, entry.kind) {
            None => {},
            Some(file) => match nested_manifest_of(file, entry.kind) {
                NestedManifestView::Content(bytes) => {
                    let manifest = parsed_manifest(bytes)->0;
                    if manifest.bin.len() > 1 {
                        lemma_expanded(
                            files,
                            path,
                            path_joined(path, CARGO_TOML@),
                            file.path,
                            manifest.bin,
                        );
                    }
                },
                _ => {},
            },
        }
    }
}

/// Entries of which none can put an example under `name` leave the
/// catalog's entry of that name as it is.
pub proof fn lemma_scan_all_keeps(
    files: Map<Seq<char>, ExampleFileView>,
    claimed: Seq<Seq<char>>,
    examples_path: Seq<char>,
    entries: Seq<DirEntryView>,
    name: Seq<char>,
)
    requires
        forall|i: int|
            0 <= i < entries.len() ==> !yields(claimed, examples_path, #[trigger] entries[i], name),
        scanned_all(files, claimed, examples_path, entries) is Ok,
    ensures
        ({
            let after = scanned_all(files, claimed, examples_path, entries)->Ok_0;
            after.dom().contains(name) == files.dom().contains(name) && after[name] == files[name]
        }),
    decreases entries.len(),
{
    if entries.len() > 0 {
        let rest = entries.drop_last();
        assert forall|i: int| 0 <= i < rest.len() implies !yields(
            claimed,
            examples_path,
            #[trigger] rest[i],
            name,
        ) by {
            assert(rest[i] == entries[i]);
        }
        lemma_scan_all_keeps(files, claimed, examples_path, rest, name);
        let before = scanned_all(files, claimed, examples_path, rest)->Ok_0;
        assert(!yields(claimed, examples_path, entries[entries.len() - 1], name));
        lemma_scan_keeps(before, claimed, examples_path, entries.last(), name);
    }
}

/// The entry that the declared example at place `at` gets, where it has a
/// name and a path.
pub open spec fn declared_entry(root: Seq<char>, target: DeclaredTargetView) -> ExampleFileView {
    ExampleFileView {
        name: target.name->0,
        path: absolutized(target.path->0, root),
        path_type: ExampleTypeView::Custom,
        required_features: features_of(target),
    }
}

/// A declared example with a name and a path stands in what the manifest
/// puts into the catalog, unless a later declaration bears its name; and
/// its path is claimed.
pub proof fn lemma_declared_stands(root: Seq<char>, all: Seq<DeclaredTargetView>, at: int)
    requires
        0 <= at < all.len(),
        all[at].name is Some,
        all[at].path is Some,
        forall|j: int| at < j < all.len() ==> (#[trigger] all[j]).name != all[at].name,
    ensures
        declared_all(root, all).files.dom().contains(all[at].name->0),
        declared_all(root, all).files[all[at].name->0] == declared_entry(root, all[at]),
        declared_all(root, all).claimed.contains(absolutized(all[at].path->0, root)),
    decreases all.len(),
{
    let rest = all.drop_last();
    let before = declared_all(root, rest);
    let after = declared_all(root, all);
    let path = absolutized(all[at].path->0, root);
    if at < all.len() - 1 {
        assert(rest[at] == all[at]);
        assert forall|j: int| at < j < rest.len() implies (#[trigger] rest[j]).name
            != rest[at].name by {
            assert(rest[j] == all[j]);
        }
        lemma_declared_stands(root, rest, at);
        assert(all[all.len() - 1].name != all[at].name);
        let i = choose|i: int| 0 <= i < before.claimed.len() && before.claimed[i] == path;
        if after.claimed.len() > before.claimed.len() {
            assert(after.claimed[i] == path);
        }
    } else {
        assert(after.claimed[after.claimed.len() - 1] == path);
    }
}

/// Claimed-path precedence. Take a manifest that declares an example under
/// a name, with a path, and after it no other under that name. Take an
/// examples folder in which no entry at an unclaimed path is an example of
/// that name. Then the catalog holds, under that name, the declared
/// example: at the declared path, with the declared features, as a custom
/// one; whatever the folder holds at the claimed path.
pub proof fn lemma_claimed_path_precedence(
    root: Seq<char>,
    examples_path: Seq<char>,
    declared_examples: Seq<DeclaredTargetView>,
    entries: Seq<DirEntryView>,
    at: int,
)
    requires
        0 <= at < declared_examples.len(),
        declared_examples[at].name is Some,
        declared_examples[at].path is Some,
        forall|j: int|
            at < j < declared_examples.len() ==> (#[trigger] declared_examples[j]).name
                != declared_examples[at].name,
        forall|i: int|
            0 <= i < entries.len() ==> !yields(
                declared_all(root, declared_examples).claimed,
                examples_path,
                #[trigger] entries[i],
                declared_examples[at].name->0,
            ),
        catalog_of(root, examples_path, declared_examples, entries) is Ok,
    ensures
        ({
            let files = catalog_of(root, examples_path, declared_examples, entries)->Ok_0;
            let name = declared_examples[at].name->0;
            files.dom().contains(name) && files[name] == declared_entry(
                root,
                declared_examples[at],
            )
        }),
{
    let from_manifest = declared_all(root, declared_examples);
    lemma_declared_stands(root, declared_examples, at);
    lemma_scan_all_keeps(
        from_manifest.files,
        from_manifest.claimed,
        examples_path,
        entries,
        declared_examples[at].name->0,
    );
}

/// An entry at a claimed path changes nothing, whatever it is.
pub proof fn lemma_claimed_entry_is_skipped(
    files: Map<Seq<char>, ExampleFileView>,
    claimed: Seq<Seq<char>>,
    examples_path: Seq<char>,
    entry: DirEntryView,
)
    requires
        claimed.contains(path_joined(examples_path, entry.file_name)),
    ensures
        scanned(files, claimed, examples_path, entry) == Ok::<
            Map<Seq<char>, ExampleFileView>,
            FailureView,
        >(files),
{
}

/// The names under which the catalog holds a binary of the crate with this
/// manifest.
pub open spec fn binaries_of(
    files: Map<Seq<char>, ExampleFileView>,
    manifest_path: Seq<char>,
) -> Set<Seq<char>> {
    Set::new(
        |k: Seq<char>|
            files.dom().contains(k) && files[k].path_type == ExampleTypeView::Crate(
                manifest_path,
                Some(k),
            ),
    )
}

/// The names of binaries that all have one.
pub open spec fn binary_names(bins: Seq<DeclaredTargetView>) -> Seq<Seq<char>> {
    Seq::new(bins.len(), |i: int| bins[i].name->0)
}

/// Expansion of a crate with several binaries. Take a folder, at an
/// unclaimed path, that is a crate whose manifest declares more than one
/// binary, each with a name of its own. Scanning it puts each binary into
/// the catalog under its name, as a binary of that crate; where the catalog
/// held no binary of that crate before, it then holds exactly as many as
/// the manifest declares; and the scan puts nothing under the folder's own
/// name, unless a binary bears that name.
pub proof fn lemma_crate_expands(
    files: Map<Seq<char>, ExampleFileView>,
    claimed: Seq<Seq<char>>,
    examples_path: Seq<char>,
    entry: DirEntryView,
)
    requires
        !claimed.contains(path_joined(examples_path, entry.file_name)),
        classified(path_joined(examples_path, entry.file_name), entry.kind) is Some,
        nested_manifest_of(
            classified(path_joined(examples_path, entry.file_name), entry.kind)->0,
            entry.kind,
        ) is Content,
        parsed_manifest(
            nested_manifest_of(
                classified(path_joined(examples_path, entry.file_name), entry.kind)->0,
                entry.kind,
            )->Content_0,
        ) is Some,
        ({
            let bins = parsed_manifest(
                nested_manifest_of(
                    classified(path_joined(examples_path, entry.file_name), entry.kind)->0,
                    entry.kind,
                )->Content_0,
            )->0.bin;
            &&& bins.len() > 1
            &&& forall|i: int| 0 <= i < bins.len() ==> (#[trigger] bins[i]).name is Some
            &&& forall|i: int, j: int|
                0 <= i < j < bins.len() ==> (#[trigger] bins[i]).name != (#[trigger] bins[j]).name
        }),
    ensures
        ({
            let path = path_joined(examples_path, entry.file_name);
            let folder = classified(path, entry.kind)->0;
            let manifest_path = path_joined(path, CARGO_TOML@);
            let bins = parsed_manifest(nested_manifest_of(folder, entry.kind)->Content_0)->0.bin;
            let after = scanned(files, claimed, examples_path, entry);
            &&& after is Ok
            &&& forall|i: int|
                0 <= i < bins.len() ==> {
                    let name = (#[trigger] bins[i]).name->0;
                    after->Ok_0.dom().contains(name) && after->Ok_0[name].path_type
                        == ExampleTypeView::Crate(manifest_path, Some(name))
                }
            &&& binaries_of(files, manifest_path) == Set::<Seq<char>>::empty() ==> {
                &&& binaries_of(after->Ok_0, manifest_path) == binary_names(bins).to_set()
                &&& binaries_of(after->Ok_0, manifest_path).len() == bins.len()
            }
            &&& !names_binary(bins, folder.name) ==> (after->Ok_0.dom().contains(folder.name)
                == files.dom().contains(folder.name) && after->Ok_0[folder.name]
                == files[folder.name])
        }),
{
    let path = path_joined(examples_path, entry.file_name);
    let folder = classified(path, entry.kind)->0;
    let manifest_path = path_joined(path, CARGO_TOML@);
    let bins = parsed_manifest(nested_manifest_of(folder, entry.kind)->Content_0)->0.bin;
    let after = expanded(files, path, manifest_path, folder.path, bins);
    assert(scanned(files, claimed, examples_path, entry) == Ok::<
        Map<Seq<char>, ExampleFileView>,
        FailureView,
    >(after));
    lemma_expanded(files, path, manifest_path, folder.path, bins);
    let names = binary_names(bins);
    assert forall|i: int| 0 <= i < bins.len() implies ({
        let name = (#[trigger] bins[i]).name->0;
        after.dom().contains(name) && after[name].path_type == ExampleTypeView::Crate(
            manifest_path,
            Some(name),
        )
    }) by {
        assert(names_binary(bins, bins[i].name->0));
    }
    assert forall|k: Seq<char>| names_binary(bins, k) <==> names.contains(k) by {
        if names_binary(bins, k) {
            let i = choose|i: int| 0 <= i < bins.len() && (#[trigger] bins[i]).name == Some(k);
            assert(names[i] == k);
        }
        if names.contains(k) {
            let i = choose|i: int| 0 <= i < names.len() && names[i] == k;
            assert(bins[i].name == Some(k));
        }
    }
    if binaries_of(files, manifest_path) == Set::<Seq<char>>::empty() {
        assert forall|k: Seq<char>| binaries_of(after, manifest_path).contains(k)
            <==> names.to_set().contains(k) by {
            if !names_binary(bins, k) {
                assert(after[k] == files[k]);
                assert(!binaries_of(files, manifest_path).contains(k));
            }
        }
        assert(binaries_of(after, manifest_path) =~= names.to_set());
        assert(names.no_duplicates()) by {
            assert forall|i: int, j: int|
                0 <= i < names.len() && 0 <= j < names.len() && i != j implies names[i]
                != names[j] by {
                if i < j {
                    assert(bins[i].name != bins[j].name);
                } else {
                    assert(bins[j].name != bins[i].name);
                }
            }
        }
        names.unique_seq_to_set();
    }
}

/// Whether scanning the entry puts binaries of the crate with this manifest
/// into the catalog.
pub open spec fn expands_into(
    claimed: Seq<Seq<char>>,
    examples_path: Seq<char>,
    entry: DirEntryView,
    manifest_path: Seq<char>,
) -> bool {
    let path = path_joined(examples_path, entry.file_name);
    !claimed.contains(path) && path_joined(path, CARGO_TOML@) == manifest_path && match classified(
        path,
        entry.kind,
    ) {
        None => false,
        Some(file) => match nested_manifest_of(file, entry.kind) {
            NestedManifestView::Content(bytes) => match parsed_manifest(bytes) {
                Some(manifest) => manifest.bin.len() > 1,
                None => false,
            },
            _ => false,
        },
    }
}

/// An entry that does not expand into binaries of a crate adds none of them.
pub proof fn lemma_scan_adds_no_binaries(
    files: Map<Seq<char>, ExampleFileView>,
    claimed: Seq<Seq<char>>,
    examples_path: Seq<char>,
    entry: DirEntryView,
    manifest_path: Seq<char>,
)
    requires
        !expands_into(claimed, examples_path, entry, manifest_path),
        scanned(files, claimed, examples_path, entry) is Ok,
    ensures
        binaries_of(scanned(files, claimed, examples_path, entry)->Ok_0, manifest_path).subset_of(
            binaries_of(files, manifest_path),
        ),
{
    let path = path_joined(examples_path, entry.file_name);
    let after = scanned(files, claimed, examples_path, entry)->Ok_0;
    if !claimed.contains(path) {
        match classified(path, entry.kind) {
            None => {},
            Some(file) => {
                match nested_manifest_of(file, entry.kind) {
                    NestedManifestView::Content(bytes) => {
                        let manifest = parsed_manifest(bytes)->0;
                        if manifest.bin.len() > 1 {
                            lemma_expanded(
                                files,
                                path,
                                path_joined(path, CARGO_TOML@),
                                file.path,
                                manifest.bin,
                            );
                        }
                    },
                    _ => {},
                }
                assert forall|k: Seq<char>|
                    binaries_of(after, manifest_path).contains(k) implies binaries_of(
                    files,
                    manifest_path,
                ).contains(k) by {
                    if after != merged(files, file) {
                        let bins = parsed_manifest(
                            nested_manifest_of(file, entry.kind)->Content_0,
                        )->0.bin;
                        if !names_binary(bins, k) {
                            assert(after[k] == files[k]);
                        }
                    }
                }
            },
        }
    }
}

/// What the manifest puts into the catalog holds no binary of any crate.
pub proof fn lemma_declared_has_no_binaries(
    root: Seq<char>,
    all: Seq<DeclaredTargetView>,
    manifest_path: Seq<char>,
)
    ensures
        forall|k: Seq<char>|
            declared_all(root, all).files.dom().contains(k) ==> (#[trigger] declared_all(
                root,
                all,
            ).files[k]).path_type == ExampleTypeView::Custom,
        binaries_of(declared_all(root, all).files, manifest_path) == Set::<Seq<char>>::empty(),
    decreases all.len(),
{
    if all.len() > 0 {
        lemma_declared_has_no_binaries(root, all.drop_last(), manifest_path);
    }
    assert(binaries_of(declared_all(root, all).files, manifest_path) =~= Set::<
        Seq<char>,
    >::empty());
}

/// Where the scan of all entries goes well, so does that of the first `n`.
pub proof fn lemma_scan_prefix(
    files: Map<Seq<char>, ExampleFileView>,
    claimed: Seq<Seq<char>>,
    examples_path: Seq<char>,
    entries: Seq<DirEntryView>,
    n: int,
)
    requires
        0 <= n <= entries.len(),
        scanned_all(files, claimed, examples_path, entries) is Ok,
    ensures
        scanned_all(files, claimed, examples_path, entries.take(n)) is Ok,
{
    if scanned_all(files, claimed, examples_path, entries.take(n)) is Err {
        crate::models::path::lemma_scan_failure(files, claimed, examples_path, entries, n);
    }
}

/// The crate folder at place `at` among the entries declares several
/// binaries, each with a name of its own; no other entry expands into
/// binaries of that crate; and no entry behind it is an example under the
/// name of one of its binaries.
pub open spec fn is_only_source_of_binaries(
    claimed: Seq<Seq<char>>,
    examples_path: Seq<char>,
    entries: Seq<DirEntryView>,
    at: int,
) -> bool {
    let entry = entries[at];
    let path = path_joined(examples_path, entry.file_name);
    let manifest_path = path_joined(path, CARGO_TOML@);
    &&& 0 <= at < entries.len()
    &&& !claimed.contains(path)
    &&& classified(path, entry.kind) is Some
    &&& nested_manifest_of(classified(path, entry.kind)->0, entry.kind) is Content
    &&& parsed_manifest(
        nested_manifest_of(classified(path, entry.kind)->0, entry.kind)->Content_0,
    ) is Some
    &&& {
        let bins = binaries_at(examples_path, entry);
        &&& bins.len() > 1
        &&& forall|i: int| 0 <= i < bins.len() ==> (#[trigger] bins[i]).name is Some
        &&& forall|i: int, j: int|
            0 <= i < j < bins.len() ==> (#[trigger] bins[i]).name != (#[trigger] bins[j]).name
        &&& forall|j: int, i: int|
            at < j < entries.len() && 0 <= i < bins.len() ==> !yields(
                claimed,
                examples_path,
                #[trigger] entries[j],
                (#[trigger] bins[i]).name->0,
            )
    }
    &&& forall|j: int|
        0 <= j < entries.len() && j != at ==> !expands_into(
            claimed,
            examples_path,
            #[trigger] entries[j],
            manifest_path,
        )
}

/// The binaries that the manifest of a crate folder declares.
pub open spec fn binaries_at(examples_path: Seq<char>, entry: DirEntryView) -> Seq<
    DeclaredTargetView,
> {
    let path = path_joined(examples_path, entry.file_name);
    parsed_manifest(
        nested_manifest_of(classified(path, entry.kind)->0, entry.kind)->Content_0,
    )->0.bin
}

proof fn lemma_binaries_after(
    files: Map<Seq<char>, ExampleFileView>,
    claimed: Seq<Seq<char>>,
    examples_path: Seq<char>,
    entries: Seq<DirEntryView>,
    at: int,
    n: int,
)
    requires
        is_only_source_of_binaries(claimed, examples_path, entries, at),
        0 <= n <= entries.len(),
        scanned_all(files, claimed, examples_path, entries) is Ok,
        binaries_of(
            files,
            path_joined(path_joined(examples_path, entries[at].file_name), CARGO_TOML@),
        ) == Set::<Seq<char>>::empty(),
    ensures
        ({
            let manifest_path = path_joined(
                path_joined(examples_path, entries[at].file_name),
                CARGO_TOML@,
            );
            let bins = binaries_at(examples_path, entries[at]);
            let so_far = scanned_all(files, claimed, examples_path, entries.take(n));
            &&& so_far is Ok
            &&& n <= at ==> binaries_of(so_far->Ok_0, manifest_path) == Set::<Seq<char>>::empty()
            &&& n > at ==> binaries_of(so_far->Ok_0, manifest_path) == binary_names(bins).to_set()
        }),
    decreases n,
{
    let manifest_path = path_joined(path_joined(examples_path, entries[at].file_name), CARGO_TOML@);
    let bins = binaries_at(examples_path, entries[at]);
    let names = binary_names(bins);
    lemma_scan_prefix(files, claimed, examples_path, entries, n);
    if n == 0 {
        assert(entries.take(0) =~= Seq::<DirEntryView>::empty());
    } else {
        lemma_binaries_after(files, claimed, examples_path, entries, at, n - 1);
        let before = scanned_all(files, claimed, examples_path, entries.take(n - 1))->Ok_0;
        let entry = entries[n - 1];
        assert(entries.take(n).drop_last() =~= entries.take(n - 1));
        assert(entries.take(n).last() == entry);
        let after = scanned(before, claimed, examples_path, entry)->Ok_0;
        if n - 1 == at {
            lemma_crate_expands(before, claimed, examples_path, entry);
        } else {
            lemma_scan_adds_no_binaries(before, claimed, examples_path, entry, manifest_path);
            if n - 1 > at {
                assert forall|k: Seq<char>| names.to_set().contains(k) implies binaries_of(
                    after,
                    manifest_path,
                ).contains(k) by {
                    let i = choose|i: int| 0 <= i < names.len() && names[i] == k;
                    assert(bins[i].name->0 == k);
                    assert(!yields(claimed, examples_path, entries[n - 1], bins[i].name->0));
                    lemma_scan_keeps(before, claimed, examples_path, entry, k);
                    assert(binaries_of(before, manifest_path).contains(k));
                }
                assert(binaries_of(after, manifest_path) =~= names.to_set());
            } else {
                assert(binaries_of(after, manifest_path) =~= Set::<Seq<char>>::empty());
            }
        }
    }
}

/// A crate with several binaries in the catalog. Take a project whose
/// examples folder holds a crate folder, at an unclaimed path, whose
/// manifest declares more than one binary, each with a name of its own.
/// Let no other entry of the folder expand into binaries of that crate, and
/// no entry behind the crate folder be an example under the name of one of
/// its binaries. Then the catalog holds exactly one entry for each of the
/// binaries, and as many such entries as the manifest declares.
pub proof fn lemma_crate_is_listed_by_its_binaries(
    root: Seq<char>,
    examples_path: Seq<char>,
    declared_examples: Seq<DeclaredTargetView>,
    entries: Seq<DirEntryView>,
    at: int,
)
    requires
        is_only_source_of_binaries(
            declared_all(root, declared_examples).claimed,
            examples_path,
            entries,
            at,
        ),
        catalog_of(root, examples_path, declared_examples, entries) is Ok,
    ensures
        ({
            let files = catalog_of(root, examples_path, declared_examples, entries)->Ok_0;
            let manifest_path = path_joined(
                path_joined(examples_path, entries[at].file_name),
                CARGO_TOML@,
            );
            let bins = binaries_at(examples_path, entries[at]);
            &&& binaries_of(files, manifest_path) == binary_names(bins).to_set()
            &&& binaries_of(files, manifest_path).len() == bins.len()
        }),
{
    let from_manifest = declared_all(root, declared_examples);
    let manifest_path = path_joined(path_joined(examples_path, entries[at].file_name), CARGO_TOML@);
    let bins = binaries_at(examples_path, entries[at]);
    let names = binary_names(bins);
    lemma_declared_has_no_binaries(root, declared_examples, manifest_path);
    lemma_binaries_after(
        from_manifest.files,
        from_manifest.claimed,
        examples_path,
        entries,
        at,
        entries.len() as int,
    );
    assert(entries.take(entries.len() as int) =~= entries);
    assert(names.no_duplicates()) by {
        assert forall|i: int, j: int|
            0 <= i < names.len() && 0 <= j < names.len() && i != j implies names[i]
            != names[j] by {
            if i < j {
                assert(bins[i].name != bins[j].name);
            } else {
                assert(bins[j].name != bins[i].name);
            }
        }
    }
    names.unique_seq_to_set();
}

/// Building the catalog twice from the same manifest and the same folder
/// gives the same catalog: the same names, each with the same path, type
/// and required features.
pub proof fn lemma_catalog_is_repeatable(
    root: Seq<char>,
    examples_path: Seq<char>,
    declared_examples: Seq<DeclaredTargetView>,
    entries: Seq<DirEntryView>,
    first: Map<Seq<char>, ExampleFileView>,
    second: Map<Seq<char>, ExampleFileView>,
)
    requires
        catalog_of(root, examples_path, declared_examples, entries) == Ok::<
            Map<Seq<char>, ExampleFileView>,
            FailureView,
        >(first),
        catalog_of(root, examples_path, declared_examples, entries) == Ok::<
            Map<Seq<char>, ExampleFileView>,
            FailureView,
        >(second),
    ensures
        first == second,
{
}

} // verus!
