//! A whole notebook: reading what the conversion needs from it, and
//! putting the formatted cells together into one document.
//!
//! Every cell of the notebook goes into the document, in the order of the
//! notebook, unless the caller names the cells to take.

use crate::cell::{format_cell, formatted_cell, Context};
use crate::error::{debug_form, debug_string, text_result, J2TError, J2TErrorView};
use crate::json::{
    expect_array, expect_number, expect_object, expect_str, member, require_array, require_number,
    require_object, require_str, Json, JsonView,
};
use vstd::prelude::*;
use vstd::string::StringExecFns;

verus! {

/// The head of every document: the definitions that the markup of the
/// cells relies on.
pub const DOCUMENT_ROOT: &'static str = r###"
#let input_notebook = "database_and_analysis.ipynb"

#let sanitize_markdown(md) = md.replace("#", "=").replace("= ", "=")

#let bgcolor_code = luma(230)
#let bgcolor_result = rgb("a7d1de")
#let codeblock(
    lang: "python",
    bgcolor: luma(230),
    code) = block(fill: bgcolor,
                  outset: 5pt,
                  radius: 3pt,
                  width: 100%,
                  raw(code, lang: lang))
#let resultblock(bgcolor: white, stroke: 1pt + luma(150), content) = [
    #move(
        align(
            right, box(
                inset: 0pt, height: 0pt, 
                text(size: 10pt, fill: luma(140))[_Result:_])),
            dx: -4em, dy: 12pt)
    #block(fill: bgcolor, outset: 5pt, radius: 3pt, width: 100%, stroke: stroke, raw(content))
]


"###;

/// The cells that go into the document.
#[derive(Clone, Debug, PartialEq, Eq)]
pub enum CellSelection {
    /// Every cell, in the order of the notebook.
    All,
    /// The cells at the given places, counted from zero, in the given
    /// order.
    Indices(Vec<usize>),
}

/// The texts of `blocks`, one after the other with nothing between them.
pub open spec fn concat(blocks: Seq<Seq<char>>) -> Seq<char>
    decreases blocks.len(),
{
    if blocks.len() == 0 {
        Seq::<char>::empty()
    } else {
        concat(blocks.drop_last()) + blocks.last()
    }
}

/// The document: the preamble, then the formatted cells in their order.
pub open spec fn assembled(preamble: Seq<char>, blocks: Seq<Seq<char>>) -> Seq<char> {
    preamble + concat(blocks)
}

/// Where in the document the block `i` starts.
pub open spec fn block_start(preamble: Seq<char>, blocks: Seq<Seq<char>>, i: int) -> int {
    (preamble.len() + concat(blocks.take(i)).len()) as int
}

/// Whether every place that `selection` names exists among `count` cells.
pub open spec fn selection_fits(selection: CellSelection, count: nat) -> bool {
    match selection {
        CellSelection::All => true,
        CellSelection::Indices(indices) => forall|k: int|
            0 <= k < indices@.len() ==> indices@[k] < count,
    }
}

/// The cells that `selection` takes from `cells`, in the order in which
/// they go into the document.
pub open spec fn selected_cells(cells: Seq<JsonView>, selection: CellSelection) -> Seq<JsonView> {
    match selection {
        CellSelection::All => cells,
        CellSelection::Indices(indices) => Seq::new(
            indices@.len(),
            |k: int| cells[indices@[k] as int],
        ),
    }
}

/// What the cells of `cells` become, in order; where one of them fails,
/// the failure of the first that does.
pub open spec fn formatted_cells(lang: Seq<char>, cells: Seq<JsonView>) -> Result<
    Seq<Seq<char>>,
    J2TErrorView,
>
    decreases cells.len(),
{
    if cells.len() == 0 {
        Ok(Seq::<Seq<char>>::empty())
    } else {
        match formatted_cells(lang, cells.drop_last()) {
            Err(e) => Err(e),
            Ok(blocks) => match formatted_cell(lang, cells.last()) {
                Err(e) => Err(e),
                Ok(block) => Ok(blocks.push(block)),
            },
        }
    }
}

/// The document that a notebook becomes: the preamble, then every cell of
/// its `cells`, which must be an array.
pub open spec fn converted_notebook(
    lang: Seq<char>,
    notebook: JsonView,
    preamble: Seq<char>,
) -> Result<Seq<char>, J2TErrorView> {
    match expect_array("cells"@, member(notebook, "cells"@)) {
        Err(e) => Err(e),
        Ok(cells) => match formatted_cells(lang, cells) {
            Err(e) => Err(e),
            Ok(blocks) => Ok(assembled(preamble, blocks)),
        },
    }
}

/// The language of the kernel: `metadata.kernelspec.language`, a string.
pub open spec fn kernel_language_of(notebook: JsonView) -> Result<Seq<char>, J2TErrorView> {
    match expect_object("notebook"@, Some(notebook)) {
        Err(e) => Err(e),
        Ok(_) => match expect_object("metadata"@, member(notebook, "metadata"@)) {
            Err(e) => Err(e),
            Ok(metadata) => match expect_object(
                "kernelspec"@,
                member(JsonView::Object(metadata), "kernelspec"@),
            ) {
                Err(e) => Err(e),
                Ok(kernelspec) => expect_str(
                    "language"@,
                    member(JsonView::Object(kernelspec), "language"@),
                ),
            },
        },
    }
}

/// The language that a well-formed notebook names for its kernel. A
/// notebook is well formed where it is an object with a format version of
/// two numbers, `nbformat` and `nbformat_minor`, and with a string at
/// `metadata.kernelspec.language`.
pub open spec fn context_language(notebook: JsonView) -> Result<Seq<char>, J2TErrorView> {
    match expect_object("notebook"@, Some(notebook)) {
        Err(e) => Err(e),
        Ok(_) => match expect_number("nbformat"@, member(notebook, "nbformat"@)) {
            Err(e) => Err(e),
            Ok(_) => match expect_number("nbformat_minor"@, member(notebook, "nbformat_minor"@)) {
                Err(e) => Err(e),
                Ok(_) => kernel_language_of(notebook),
            },
        },
    }
}

/// The keys of the members of an object, in the order in which it holds
/// them; no keys for a value that is no object.
pub open spec fn member_keys(json: Json) -> Seq<Seq<char>> {
    match json {
        Json::Object(members) => Seq::new(members@.len(), |i: int| members@[i].0@),
        _ => Seq::<Seq<char>>::empty(),
    }
}

/// The keys of the members of an object, each in the form in which `Debug`
/// prints a string, in the order in which the object holds them.
pub open spec fn quoted_keys(json: Json) -> Seq<Seq<char>> {
    Seq::new(member_keys(json).len(), |i: int| debug_form(member_keys(json)[i]))
}

/// The names of `keys`, with a comma and a space between one and the next.
pub open spec fn listed(keys: Seq<Seq<char>>) -> Seq<char>
    decreases keys.len(),
{
    if keys.len() == 0 {
        Seq::<char>::empty()
    } else if keys.len() == 1 {
        keys.last()
    } else {
        listed(keys.drop_last()) + ", "@ + keys.last()
    }
}

/// The lines that describe a notebook. A value that is no object is
/// reported as such. Of an object, nothing is said unless `verbose` is
/// set; then its keys, its format version, which must be two numbers, and
/// the language of its kernel are.
pub open spec fn overview_of(verbose: bool, lang: Seq<char>, notebook: Json) -> Result<
    Seq<Seq<char>>,
    J2TErrorView,
> {
    if !(notebook@ is Object) {
        Ok(seq!["Unknown notebook format!"@])
    } else if !verbose {
        Ok(Seq::<Seq<char>>::empty())
    } else {
        match expect_number("nbformat"@, member(notebook@, "nbformat"@)) {
            Err(e) => Err(e),
            Ok(major) => match expect_number(
                "nbformat_minor"@,
                member(notebook@, "nbformat_minor"@),
            ) {
                Err(e) => Err(e),
                Ok(minor) => Ok(
                    seq![
                        "Notebook with keys ["@ + listed(quoted_keys(notebook)) + "]"@,
                        "Version: "@ + major + "."@ + minor,
                        "=> Well-formed!"@,
                        "Language: "@ + lang,
                    ],
                ),
            },
        }
    }
}

/// The length of what the first `i` blocks make grows with `i`.
pub proof fn lemma_concat_take_len(blocks: Seq<Seq<char>>, i: int, j: int)
    requires
        0 <= i <= j <= blocks.len(),
    ensures
        concat(blocks.take(i)).len() <= concat(blocks.take(j)).len(),
    decreases j - i,
{
    if i < j {
        assert(blocks.take(j).drop_last() == blocks.take(j - 1));
        lemma_concat_take_len(blocks, i, j - 1);
    }
}

/// What the first `i` blocks make is the beginning of what all make.
pub proof fn lemma_concat_take_prefix(blocks: Seq<Seq<char>>, i: int)
    requires
        0 <= i <= blocks.len(),
    ensures
        concat(blocks.take(i)).len() <= concat(blocks).len(),
        concat(blocks).subrange(0, concat(blocks.take(i)).len() as int) == concat(blocks.take(i)),
    decreases blocks.len() - i,
{
    if i < blocks.len() {
        assert(blocks.take(i + 1).drop_last() == blocks.take(i));
        lemma_concat_take_prefix(blocks, i + 1);
        let longer = concat(blocks.take(i + 1));
        let n = concat(blocks.take(i)).len() as int;
        assert(longer.subrange(0, n) == concat(blocks.take(i)));
        assert(concat(blocks).subrange(0, n) == concat(blocks).subrange(
            0,
            longer.len() as int,
        ).subrange(0, n));
    } else {
        assert(blocks.take(i) == blocks);
    }
}

/// In the document, every block stands where the blocks before it end,
/// whole and unchanged, and a block that comes later in the list starts no
/// earlier than the one before it ends.
pub proof fn lemma_blocks_in_order(preamble: Seq<char>, blocks: Seq<Seq<char>>, i: int, j: int)
    requires
        0 <= i < j < blocks.len(),
    ensures
        ({
            let document = assembled(preamble, blocks);
            let start_i = block_start(preamble, blocks, i);
            let start_j = block_start(preamble, blocks, j);
            &&& preamble.len() <= start_i
            &&& start_i + blocks[i].len() <= start_j
            &&& start_j + blocks[j].len() <= document.len()
            &&& document.subrange(start_i, start_i + blocks[i].len()) == blocks[i]
            &&& document.subrange(start_j, start_j + blocks[j].len()) == blocks[j]
        }),
{
    lemma_block_in_place(preamble, blocks, i);
    lemma_block_in_place(preamble, blocks, j);
    assert(blocks.take(i + 1).drop_last() == blocks.take(i));
    lemma_concat_take_len(blocks, i + 1, j);
}

/// In the document, the block `i` stands where the blocks before it end,
/// whole and unchanged.
pub proof fn lemma_block_in_place(preamble: Seq<char>, blocks: Seq<Seq<char>>, i: int)
    requires
        0 <= i < blocks.len(),
    ensures
        ({
            let document = assembled(preamble, blocks);
            let start = block_start(preamble, blocks, i);
            &&& preamble.len() <= start
            &&& start + blocks[i].len() <= document.len()
            &&& document.subrange(start, start + blocks[i].len()) == blocks[i]
        }),
{
    assert(blocks.take(i + 1).drop_last() == blocks.take(i));
    lemma_concat_take_prefix(blocks, i + 1);
    let before = concat(blocks.take(i));
    let through = concat(blocks.take(i + 1));
    assert(through == before + blocks[i]);
    assert(through.subrange(before.len() as int, through.len() as int) == blocks[i]);
    let document = assembled(preamble, blocks);
    let start = block_start(preamble, blocks, i);
    assert(document.subrange(start, start + blocks[i].len()) == concat(blocks).subrange(
        0,
        through.len() as int,
    ).subrange(before.len() as int, through.len() as int));
}

/// Once a cell among the first `n` fails, the whole list fails in the same
/// way.
pub proof fn lemma_formatted_cells_fail(lang: Seq<char>, cells: Seq<JsonView>, n: int)
    requires
        0 <= n <= cells.len(),
        formatted_cells(lang, cells.take(n)) is Err,
    ensures
        formatted_cells(lang, cells) == formatted_cells(lang, cells.take(n)),
    decreases cells.len() - n,
{
    if n < cells.len() {
        assert(cells.take(n + 1).drop_last() == cells.take(n));
        lemma_formatted_cells_fail(lang, cells, n + 1);
    } else {
        assert(cells.take(n) == cells);
    }
}

/// Where every cell succeeds, there are as many blocks as cells, and the
/// block at each place is what the cell at that place becomes.
pub proof fn lemma_formatted_cells_pointwise(lang: Seq<char>, cells: Seq<JsonView>, i: int)
    requires
        formatted_cells(lang, cells) is Ok,
        0 <= i < cells.len(),
    ensures
        formatted_cells(lang, cells)->Ok_0.len() == cells.len(),
        formatted_cell(lang, cells[i]) == Ok::<Seq<char>, J2TErrorView>(
            formatted_cells(lang, cells)->Ok_0[i],
        ),
    decreases cells.len(),
{
    let before = cells.drop_last();
    assert(formatted_cells(lang, before) is Ok);
    if before.len() > 0 {
        lemma_formatted_cells_pointwise(lang, before, 0);
    } else {
        assert(formatted_cells(lang, before)->Ok_0.len() == 0);
    }
    if i < before.len() {
        lemma_formatted_cells_pointwise(lang, before, i);
        assert(before[i] == cells[i]);
    }
}

/// Order preservation: in the document of a notebook, the markup of every
/// cell stands whole and unchanged, and the markup of a cell that comes
/// later in the notebook starts no earlier than that of an earlier cell
/// ends.
pub proof fn lemma_cells_in_order(
    lang: Seq<char>,
    cells: Seq<JsonView>,
    preamble: Seq<char>,
    i: int,
    j: int,
)
    requires
        formatted_cells(lang, cells) is Ok,
        0 <= i < j < cells.len(),
    ensures
        ({
            let blocks = formatted_cells(lang, cells)->Ok_0;
            let document = assembled(preamble, blocks);
            let first = formatted_cell(lang, cells[i]);
            let second = formatted_cell(lang, cells[j]);
            let start_first = block_start(preamble, blocks, i);
            let start_second = block_start(preamble, blocks, j);
            &&& first is Ok
            &&& second is Ok
            &&& document.subrange(start_first, start_first + first->Ok_0.len()) == first->Ok_0
            &&& document.subrange(start_second, start_second + second->Ok_0.len()) == second->Ok_0
            &&& start_first + first->Ok_0.len() <= start_second
        }),
{
    lemma_formatted_cells_pointwise(lang, cells, i);
    lemma_formatted_cells_pointwise(lang, cells, j);
    lemma_blocks_in_order(preamble, formatted_cells(lang, cells)->Ok_0, i, j);
}

impl CellSelection {
    /// Whether every place that the selection names exists among `count`
    /// cells.
    pub fn fits(&self, count: usize) -> (r: bool)
        ensures
            r == selection_fits(*self, count as nat),
    {
        match self {
            CellSelection::All => true,
            CellSelection::Indices(indices) => {
                let mut k: usize = 0;
                while k < indices.len()
                    invariant
                        k <= indices.len(),
                        selection_fits(*self, count as nat) <==> forall|m: int|
                            0 <= m < indices@.len() ==> indices@[m] < count,
                        forall|m: int| 0 <= m < k ==> indices@[m] < count,
                    decreases indices.len() - k,
                {
                    if indices[k] >= count {
                        assert(!(indices@[k as int] < count));
                        return false;
                    }
                    k += 1;
                }
                true
            },
        }
    }

    /// How many cells the selection takes from `count` cells.
    fn len(&self, count: usize) -> (r: usize)
        ensures
            *self is All ==> r == count,
            *self matches CellSelection::Indices(indices) ==> r == indices@.len(),
    {
        match self {
            CellSelection::All => count,
            CellSelection::Indices(indices) => indices.len(),
        }
    }

    /// The place in the notebook of the cell that goes into the document
    /// as its `k`-th.
    fn place(&self, k: usize) -> (r: usize)
        requires
            *self matches CellSelection::Indices(indices) ==> k < indices@.len(),
        ensures
            *self is All ==> r == k,
            *self matches CellSelection::Indices(indices) ==> r == indices@[k as int],
    {
        match self {
            CellSelection::All => k,
            CellSelection::Indices(indices) => indices[k],
        }
    }
}

/// Puts the document together: the preamble, then the formatted cells in
/// their order, with nothing between them.
pub fn assemble(preamble: &str, formatted_cells: &Vec<String>) -> (r: String)
    ensures
        r@ == assembled(preamble@, formatted_cells.deep_view()),
{
    let ghost blocks = formatted_cells.deep_view();
    let mut r = String::from_str(preamble);
    let mut i: usize = 0;
    assert(blocks.take(0) == Seq::<Seq<char>>::empty());
    while i < formatted_cells.len()
        invariant
            i <= formatted_cells.len(),
            blocks == formatted_cells.deep_view(),
            r@ == preamble@ + concat(blocks.take(i as int)),
        decreases formatted_cells.len() - i,
    {
        assert(blocks.take(i + 1).drop_last() == blocks.take(i as int));
        assert(blocks.take(i + 1).last() == formatted_cells@[i as int]@);
        r.append(formatted_cells[i].as_str());
        i += 1;
    }
    assert(blocks.take(i as int) == blocks);
    r
}

/// Formats the cells that `selection` takes from `cells`, in the order in
/// which they go into the document. The first cell that fails ends the
/// run with its failure.
pub fn format_cells(
    ctx: &Context,
    cells: &Vec<Json>,
    selection: &CellSelection,
) -> (r: Result<Vec<String>, J2TError>)
    requires
        selection_fits(*selection, cells@.len()),
    ensures
        match formatted_cells(ctx.lang@, selected_cells(Json::items_view(cells@), *selection)) {
            Ok(blocks) => r matches Ok(found) && found.deep_view() == blocks,
            Err(e) => r matches Err(f) && f@ == e,
        },
{
    let ghost taken = selected_cells(Json::items_view(cells@), *selection);
    let count = selection.len(cells.len());
    assert(count == taken.len()) by {
        match *selection {
            CellSelection::All => {
                assert(taken == Json::items_view(cells@));
                assert(Json::items_view(cells@).len() == cells@.len());
            },
            CellSelection::Indices(indices) => {
                assert(taken.len() == indices@.len());
            },
        }
    }
    let mut blocks: Vec<String> = Vec::new();
    let mut k: usize = 0;
    assert(taken.take(0) == Seq::<JsonView>::empty());
    assert(blocks.deep_view() == Seq::<Seq<char>>::empty());
    while k < count
        invariant
            k <= count,
            count == taken.len(),
            selection_fits(*selection, cells@.len()),
            taken == selected_cells(Json::items_view(cells@), *selection),
            formatted_cells(ctx.lang@, taken.take(k as int)) == Ok::<
                Seq<Seq<char>>,
                J2TErrorView,
            >(blocks.deep_view()),
        decreases count - k,
    {
        let place = selection.place(k);
        assert(taken.take(k + 1).drop_last() == taken.take(k as int));
        assert(taken.take(k + 1).last() == cells@[place as int]@);
        match format_cell(ctx, &cells[place]) {
            Ok(block) => {
                let ghost before = blocks.deep_view();
                blocks.push(block);
                assert(blocks.deep_view() == before.push(block@));
            },
            Err(e) => {
                proof {
                    lemma_formatted_cells_fail(ctx.lang@, taken, k + 1);
                }
                return Err(e);
            },
        }
        k += 1;
    }
    assert(taken.take(k as int) == taken);
    Ok(blocks)
}

/// Converts a notebook into a document: the preamble, then every cell of
/// the notebook, formatted, in the order of the notebook. Fails where the
/// notebook has no array `cells`, and where a cell fails.
pub fn convert_notebook(
    ctx: &Context,
    notebook: &Json,
    preamble: &str,
) -> (r: Result<String, J2TError>)
    ensures
        text_result(r) == converted_notebook(ctx.lang@, notebook@, preamble@),
{
    let cells = match require_array("cells", notebook.get("cells")) {
        Ok(cells) => cells,
        Err(e) => {
            return Err(e);
        },
    };
    match format_cells(ctx, cells, &CellSelection::All) {
        Ok(blocks) => Ok(assemble(preamble, &blocks)),
        Err(e) => Err(e),
    }
}

/// Reads the language of the kernel from the notebook's metadata.
pub fn kernel_language(notebook: &Json) -> (r: Result<String, J2TError>)
    ensures
        text_result(r) == kernel_language_of(notebook@),
{
    let notebook = match require_object("notebook", Some(notebook)) {
        Ok(notebook) => notebook,
        Err(e) => {
            return Err(e);
        },
    };
    let metadata = match require_object("metadata", notebook.get("metadata")) {
        Ok(metadata) => metadata,
        Err(e) => {
            return Err(e);
        },
    };
    let kernelspec = match require_object("kernelspec", metadata.get("kernelspec")) {
        Ok(kernelspec) => kernelspec,
        Err(e) => {
            return Err(e);
        },
    };
    match require_str("language", kernelspec.get("language")) {
        Ok(language) => Ok(language.clone()),
        Err(e) => Err(e),
    }
}

/// Checks that the notebook is well formed and gives the context in which
/// its cells are formatted: the language of its kernel, and `verbose` as it
/// was handed in.
pub fn notebook_context(notebook: &Json, verbose: bool) -> (r: Result<Context, J2TError>)
    ensures
        match context_language(notebook@) {
            Ok(lang) => r matches Ok(ctx) && ctx.lang@ == lang && ctx.verbose == verbose,
            Err(e) => r matches Err(f) && f@ == e,
        },
{
    let object = match require_object("notebook", Some(notebook)) {
        Ok(object) => object,
        Err(e) => {
            return Err(e);
        },
    };
    match require_number("nbformat", object.get("nbformat")) {
        Ok(_) => {},
        Err(e) => {
            return Err(e);
        },
    }
    match require_number("nbformat_minor", object.get("nbformat_minor")) {
        Ok(_) => {},
        Err(e) => {
            return Err(e);
        },
    }
    match kernel_language(object) {
        Ok(lang) => Ok(Context { verbose, lang }),
        Err(e) => Err(e),
    }
}

/// Lists names with a comma and a space between one and the next.
pub fn list_names(names: &Vec<String>) -> (r: String)
    ensures
        r@ == listed(names.deep_view()),
{
    let ghost all = names.deep_view();
    let mut r = String::new();
    let mut i: usize = 0;
    assert(all.take(0) == Seq::<Seq<char>>::empty());
    while i < names.len()
        invariant
            i <= names.len(),
            all == names.deep_view(),
            r@ == listed(all.take(i as int)),
        decreases names.len() - i,
    {
        assert(all.take(i + 1).drop_last() == all.take(i as int));
        assert(all.take(i + 1).last() == names@[i as int]@);
        if i > 0 {
            r.append(", ");
        }
        r.append(names[i].as_str());
        i += 1;
    }
    assert(all.take(i as int) == all);
    r
}

/// Lists the keys of the members of an object as `Debug` prints a list of
/// strings without its brackets: each key quoted, in the order in which
/// the object holds them, with a comma and a space between one and the
/// next.
pub fn list_keys(json: &Json) -> (r: String)
    ensures
        r@ == listed(quoted_keys(*json)),
{
    let mut names: Vec<String> = Vec::new();
    match json {
        Json::Object(members) => {
            let mut i: usize = 0;
            assert(names.deep_view() == quoted_keys(*json).take(0));
            while i < members.len()
                invariant
                    i <= members.len(),
                    *json == Json::Object(*members),
                    names.deep_view() == quoted_keys(*json).take(i as int),
                decreases members.len() - i,
            {
                let ghost before = names.deep_view();
                let name = debug_string(members[i].0.as_str());
                names.push(name);
                assert(names.deep_view() == before.push(name@));
                assert(quoted_keys(*json).take(i + 1) == quoted_keys(*json).take(i as int).push(
                    debug_form(members@[i as int].0@),
                ));
                i += 1;
            }
            assert(quoted_keys(*json).take(i as int) == quoted_keys(*json));
        },
        _ => {
            assert(names.deep_view() == quoted_keys(*json));
        },
    }
    list_names(&names)
}

/// Describes a notebook in the lines that the verbose mode shows: its
/// keys, its format version, a confirmation, and the language of its
/// kernel. A value that is no object is reported as such, verbose or not.
pub fn notebook_overview(ctx: &Context, nb: &Json) -> (r: Result<Vec<String>, J2TError>)
    ensures
        match overview_of(ctx.verbose, ctx.lang@, *nb) {
            Ok(lines) => r matches Ok(found) && found.deep_view() == lines,
            Err(e) => r matches Err(f) && f@ == e,
        },
{
    let mut lines: Vec<String> = Vec::new();
    match nb {
        Json::Object(_) => {
            if ctx.verbose {
                let major = match require_number("nbformat", nb.get("nbformat")) {
                    Ok(major) => major,
                    Err(e) => {
                        return Err(e);
                    },
                };
                let minor = match require_number("nbformat_minor", nb.get("nbformat_minor")) {
                    Ok(minor) => minor,
                    Err(e) => {
                        return Err(e);
                    },
                };
                let mut keys = String::from_str("Notebook with keys [");
                keys.append(list_keys(nb).as_str());
                keys.append("]");
                let mut version = String::from_str("Version: ");
                version.append(major.as_str());
                version.append(".");
                version.append(minor.as_str());
                let confirmation = String::from_str("=> Well-formed!");
                let mut language = String::from_str("Language: ");
                language.append(ctx.lang.as_str());
                lines.push(keys);
                lines.push(version);
                lines.push(confirmation);
                lines.push(language);
                assert(lines.deep_view() == seq![keys@, version@, confirmation@, language@]);
            } else {
                assert(lines.deep_view() == Seq::<Seq<char>>::empty());
            }
        },
        _ => {
            let unknown = String::from_str("Unknown notebook format!");
            lines.push(unknown);
            assert(lines.deep_view() == seq![unknown@]);
        },
    }
    Ok(lines)
}

} // verus!
