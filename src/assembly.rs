use vstd::prelude::*;

use crate::hex::{hex_digits, push_hex};
use crate::kinds::{kind_of_code, TrayItemKind};
use crate::tray_files::{TrayFileView, TrayFolderContent, TrayItem, TrayItemFile};

verus! {

/// One file to copy into a gallery item's folder: where it is, and the name it keeps.
pub struct CopyStep {
    pub source: String,
    pub file_name: String,
}

/// Everything needed to materialise one gallery item: the kind's subfolder,
/// the item's own folder within it, the primary file and every companion.
pub struct GalleryPlan {
    pub type_folder: String,
    pub item_folder: String,
    pub primary: CopyStep,
    pub extras: Vec<CopyStep>,
}

/// A copy step as plain values: `(source, file_name)`.
pub open spec fn step_view(c: CopyStep) -> (Seq<char>, Seq<char>) {
    (c.source@, c.file_name@)
}

/// The copy step for a companion file.
pub open spec fn file_step(f: TrayFileView) -> (Seq<char>, Seq<char>) {
    (f.path, f.filename)
}

impl GalleryPlan {
    pub open spec fn extras_view(&self) -> Seq<(Seq<char>, Seq<char>)> {
        self.extras@.map_values(|c: CopyStep| step_view(c))
    }
}

/// Copy steps for the files of `files` whose identifier is `id`, in order.
pub open spec fn files_with_id(files: Seq<TrayFileView>, id: int) -> Seq<(Seq<char>, Seq<char>)>
    decreases files.len(),
{
    if files.len() == 0 {
        seq![]
    } else {
        let rest = files_with_id(files.drop_last(), id);
        if files.last().id == id {
            rest.push(file_step(files.last()))
        } else {
            rest
        }
    }
}

/// Whether some file of `files` has identifier `id`.
pub open spec fn has_id(files: Seq<TrayFileView>, id: int) -> bool {
    exists|i: int| 0 <= i < files.len() && #[trigger] files[i].id == id
}

/// The identifiers `first .. first + k` are all present in `files`, and
/// `first + k` is not: a run of `k` sequels ends there.
pub open spec fn is_chain_end(files: Seq<TrayFileView>, first: int, k: nat) -> bool {
    &&& forall|j: int| 0 <= j < k ==> #[trigger] has_id(files, first + j)
    &&& !has_id(files, first + k)
}

/// Copy steps for the sequels with identifiers `first .. first + k`, by
/// identifier, and in the order of `files` within one identifier.
pub open spec fn sequel_run(files: Seq<TrayFileView>, first: int, k: nat) -> Seq<(Seq<char>, Seq<char>)>
    decreases k,
{
    if k == 0 {
        seq![]
    } else {
        sequel_run(files, first, (k - 1) as nat) + files_with_id(files, first + k - 1)
    }
}

/// The folder of one gallery item: `<name> (0x<id in lower-case hex>)`.
pub open spec fn item_folder_name(name: Seq<char>, id: u64) -> Seq<char> {
    name + " (0x"@ + hex_digits(id as nat) + ")"@
}

/// Whether `plan` gathers `item` with the auxiliary files of its identifier
/// and the contiguous run of sequels just above it.
pub open spec fn is_plan_for(
    plan: GalleryPlan,
    item: TrayItem,
    auxiliaries: Seq<TrayFileView>,
    sequels: Seq<TrayFileView>,
) -> bool {
    &&& kind_of_code(item.file_type) is Some
    &&& plan.type_folder@ == kind_of_code(item.file_type).unwrap().spec_folder_name()
    &&& plan.item_folder@ == item_folder_name(item.name@, item.id)
    &&& step_view(plan.primary) == (item.path@, item.filename@)
    &&& exists|k: nat|
        #[trigger] is_chain_end(sequels, item.id + 1, k) && plan.extras_view() == files_with_id(
            auxiliaries,
            item.id as int,
        ) + sequel_run(sequels, item.id + 1, k)
}

/// A run of sequels has one end: the `k` of `is_chain_end` is unique, so a
/// plan's companions are fixed by the item and the two collections.
pub proof fn lemma_chain_end_unique(files: Seq<TrayFileView>, first: int, k1: nat, k2: nat)
    requires
        is_chain_end(files, first, k1),
        is_chain_end(files, first, k2),
    ensures
        k1 == k2,
{
    if k1 < k2 {
        assert(has_id(files, first + k1));
    } else if k2 < k1 {
        assert(has_id(files, first + k2));
    }
}

/// With sequels of identifiers `id + 1`, `id + 2` and `id + 4`, an item's plan
/// takes the first two and stops at the gap before the third.
pub proof fn lemma_sequel_gap_stops_chain(
    plan: GalleryPlan,
    item: TrayItem,
    auxiliaries: Seq<TrayFileView>,
    sequels: Seq<TrayFileView>,
)
    requires
        is_plan_for(plan, item, auxiliaries, sequels),
        sequels.len() == 3,
        sequels[0].id == item.id + 1,
        sequels[1].id == item.id + 2,
        sequels[2].id == item.id + 4,
    ensures
        plan.extras_view() == files_with_id(auxiliaries, item.id as int) + seq![
            file_step(sequels[0]),
            file_step(sequels[1]),
        ],
{
    let first = item.id + 1;
    assert(has_id(sequels, first + 0));
    assert(has_id(sequels, first + 1));
    assert(!has_id(sequels, first + 2));
    assert(is_chain_end(sequels, first, 2));
    let k = choose|k: nat|
        #[trigger] is_chain_end(sequels, item.id + 1, k) && plan.extras_view() == files_with_id(
            auxiliaries,
            item.id as int,
        ) + sequel_run(sequels, item.id + 1, k);
    lemma_chain_end_unique(sequels, first, k, 2);
    lemma_files_with_one_id(sequels, first, 0);
    lemma_files_with_one_id(sequels, first + 1, 1);
    assert(sequel_run(sequels, first, 0) =~= Seq::<(Seq<char>, Seq<char>)>::empty());
    assert(sequel_run(sequels, first, 1) == sequel_run(sequels, first, 0) + files_with_id(
        sequels,
        first,
    ));
    assert(sequel_run(sequels, first, 2) == sequel_run(sequels, first, 1) + files_with_id(
        sequels,
        first + 1,
    ));
    assert(sequel_run(sequels, first, 2) =~= seq![file_step(sequels[0]), file_step(sequels[1])]);
}

/// Where only the file at `i` has identifier `id`, it alone is taken.
proof fn lemma_files_with_one_id(files: Seq<TrayFileView>, id: int, i: int)
    requires
        0 <= i < files.len(),
        files[i].id == id,
        forall|j: int| 0 <= j < files.len() && j != i ==> files[j].id != id,
    ensures
        files_with_id(files, id) == seq![file_step(files[i])],
    decreases files.len(),
{
    let rest = files.drop_last();
    if i == files.len() - 1 {
        lemma_files_without_id(rest, id);
        assert(Seq::<(Seq<char>, Seq<char>)>::empty().push(file_step(files[i])) =~= seq![
            file_step(files[i]),
        ]);
    } else {
        assert(rest[i] == files[i]);
        assert forall|j: int| 0 <= j < rest.len() && j != i implies rest[j].id != id by {
            assert(rest[j] == files[j]);
        }
        lemma_files_with_one_id(rest, id, i);
    }
}

/// Where no file has identifier `id`, none is taken.
proof fn lemma_files_without_id(files: Seq<TrayFileView>, id: int)
    requires
        forall|j: int| 0 <= j < files.len() ==> files[j].id != id,
    ensures
        files_with_id(files, id) == Seq::<(Seq<char>, Seq<char>)>::empty(),
    decreases files.len(),
{
    if files.len() > 0 {
        let rest = files.drop_last();
        assert forall|j: int| 0 <= j < rest.len() implies rest[j].id != id by {
            assert(rest[j] == files[j]);
        }
        lemma_files_without_id(rest, id);
    }
}

/// Of two auxiliary files, one with the item's identifier and one with
/// another, an item's plan takes the first alone, before its sequels.
pub proof fn lemma_auxiliary_matches_by_id(
    plan: GalleryPlan,
    item: TrayItem,
    auxiliaries: Seq<TrayFileView>,
    sequels: Seq<TrayFileView>,
)
    requires
        is_plan_for(plan, item, auxiliaries, sequels),
        auxiliaries.len() == 2,
        auxiliaries[0].id == item.id,
        auxiliaries[1].id != item.id,
    ensures
        exists|k: nat|
            #[trigger] is_chain_end(sequels, item.id + 1, k) && plan.extras_view() == seq![
                file_step(auxiliaries[0]),
            ] + sequel_run(sequels, item.id + 1, k),
{
    lemma_files_with_one_id(auxiliaries, item.id as int, 0);
}

/// Appends a copy step for each file of `files` with identifier `id`; tells
/// whether there was any.
fn push_files_with_id(files: &Vec<TrayItemFile>, id: u64, out: &mut Vec<CopyStep>) -> (found: bool)
    ensures
        final(out)@.map_values(|c: CopyStep| step_view(c)) == old(out)@.map_values(
            |c: CopyStep| step_view(c),
        ) + files_with_id(files@.map_values(|f: TrayItemFile| f@), id as int),
        found == has_id(files@.map_values(|f: TrayItemFile| f@), id as int),
        !found ==> files_with_id(files@.map_values(|f: TrayItemFile| f@), id as int) == Seq::<
            (Seq<char>, Seq<char>),
        >::empty(),
{
    let ghost fv = files@.map_values(|f: TrayItemFile| f@);
    let ghost start = out@.map_values(|c: CopyStep| step_view(c));
    let mut found = false;
    let mut i: usize = 0;
    while i < files.len()
        invariant
            0 <= i <= files@.len() == fv.len(),
            fv == files@.map_values(|f: TrayItemFile| f@),
            out@.map_values(|c: CopyStep| step_view(c)) == start + files_with_id(
                fv.take(i as int),
                id as int,
            ),
            found == has_id(fv.take(i as int), id as int),
            !found ==> files_with_id(fv.take(i as int), id as int) == Seq::<
                (Seq<char>, Seq<char>),
            >::empty(),
        decreases files@.len() - i,
    {
        let ghost before = fv.take(i as int);
        let ghost after = fv.take(i + 1);
        assert(after.drop_last() =~= before);
        assert(after.last() == fv[i as int]);
        let ghost prev = out@.map_values(|c: CopyStep| step_view(c));
        let f = &files[i];
        if f.id == id {
            let step = CopyStep { source: f.path.clone(), file_name: f.filename.clone() };
            assert(step_view(step) == file_step(fv[i as int]));
            out.push(step);
            assert(out@.map_values(|c: CopyStep| step_view(c)) =~= prev.push(step_view(step)));
            found = true;
            assert(after[i as int].id == id);
        } else {
            assert(has_id(after, id as int) ==> has_id(before, id as int)) by {
                if has_id(after, id as int) {
                    let j = choose|j: int| 0 <= j < after.len() && #[trigger] after[j].id == id;
                    assert(before[j] == after[j]);
                }
            }
            assert(has_id(before, id as int) ==> has_id(after, id as int)) by {
                if has_id(before, id as int) {
                    let j = choose|j: int| 0 <= j < before.len() && #[trigger] before[j].id == id;
                    assert(before[j] == after[j]);
                }
            }
        }
        i = i + 1;
        assert(out@.map_values(|c: CopyStep| step_view(c)) =~= start + files_with_id(
            fv.take(i as int),
            id as int,
        ));
    }
    assert(fv.take(files@.len() as int) =~= fv);
    found
}

/// Plans the gallery item of `item`: the primary file, every auxiliary file
/// with the same identifier, and the sequel files whose identifiers run on
/// without a gap from the one just above the item's. `None` where the item's
/// type code is of no supported kind.
pub fn assemble_gallery_item(item: &TrayItem, content: &TrayFolderContent) -> (r: Option<GalleryPlan>)
    ensures
        r is None <==> kind_of_code(item.file_type) is None,
        r is Some ==> is_plan_for(r.unwrap(), *item, content.auxiliaries(), content.sequels()),
{
    let kind = match TrayItemKind::from_code(item.file_type) {
        Some(kind) => kind,
        None => return None,
    };
    let type_folder = String::from_str(kind.folder_name());
    let mut item_folder = item.name.clone();
    item_folder.append(" (0x");
    push_hex(&mut item_folder, item.id);
    item_folder.append(")");
    let primary = CopyStep { source: item.path.clone(), file_name: item.filename.clone() };

    let ghost sgi = content.sequels();
    let mut extras: Vec<CopyStep> = Vec::new();
    assert(extras@.map_values(|c: CopyStep| step_view(c)) =~= Seq::<(Seq<char>, Seq<char>)>::empty());
    push_files_with_id(&content.unknown_files, item.id, &mut extras);
    let ghost base = extras@.map_values(|c: CopyStep| step_view(c));
    assert(base =~= files_with_id(content.auxiliaries(), item.id as int));

    let ghost mut k: nat = 0;
    if item.id < u64::MAX {
        let mut expected: u64 = item.id + 1;
        let mut done = false;
        while !done
            invariant
                sgi == content.sequels(),
                !done ==> expected == item.id + 1 + k,
                forall|j: int| 0 <= j < k ==> #[trigger] has_id(sgi, item.id + 1 + j),
                done ==> !has_id(sgi, item.id + 1 + k),
                extras@.map_values(|c: CopyStep| step_view(c)) == base + sequel_run(
                    sgi,
                    item.id + 1,
                    k,
                ),
            decreases u64::MAX - expected + (if done { 0int } else { 1int }),
        {
            let found = push_files_with_id(&content.sgi_files, expected, &mut extras);
            if !found {
                done = true;
                assert(extras@.map_values(|c: CopyStep| step_view(c)) =~= base + sequel_run(
                    sgi,
                    item.id + 1,
                    k,
                ));
            } else {
                assert(extras@.map_values(|c: CopyStep| step_view(c)) =~= base + sequel_run(
                    sgi,
                    item.id + 1,
                    k + 1,
                ));
                proof {
                    k = k + 1;
                }
                if expected == u64::MAX {
                    done = true;
                    assert(!has_id(sgi, item.id + 1 + k));
                } else {
                    expected = expected + 1;
                }
            }
        }
        assert(is_chain_end(sgi, item.id + 1, k));
    } else {
        assert(!has_id(sgi, item.id + 1));
        assert(is_chain_end(sgi, item.id + 1, 0));
        assert(base + sequel_run(sgi, item.id + 1, 0) =~= base);
    }
    let plan = GalleryPlan { type_folder, item_folder, primary, extras };
    assert(plan.extras_view() == files_with_id(content.auxiliaries(), item.id as int)
        + sequel_run(sgi, item.id + 1, k));
    Some(plan)
}

} // verus!
