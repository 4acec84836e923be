use vstd::prelude::*;

use crate::garment::text::str_chars;
use crate::garment::triangle_is_valid;

verus! {

/// Smallest accepted template resolution (vertex columns).
pub const MIN_TEMPLATE_RESOLUTION: u32 = 6;

/// Largest accepted template resolution (vertex columns).
pub const MAX_TEMPLATE_RESOLUTION: u32 = 40;

/// Deterministic built-in garments used to exercise cloth behaviour without importing an asset.
///
/// These are simulation fixtures rather than apparel pattern definitions: each is a single
/// connected drape surface, with no sewing relationships.
#[derive(Clone, Copy, Debug, PartialEq, Eq, Structural)]
pub enum GarmentTemplate {
    Sheet,
    TShirt,
    Cape,
    Skirt,
    Dress,
    Poncho,
}

/// Why a template could not be built.
#[derive(Clone, Copy, Debug, PartialEq, Eq, Structural)]
pub enum GarmentTemplateError {
    ResolutionOutOfRange,
}

/// The stable key of a template.
pub open spec fn template_key(template: GarmentTemplate) -> Seq<char> {
    match template {
        GarmentTemplate::Sheet => "sheet"@,
        GarmentTemplate::TShirt => "t-shirt"@,
        GarmentTemplate::Cape => "cape"@,
        GarmentTemplate::Skirt => "skirt"@,
        GarmentTemplate::Dress => "dress"@,
        GarmentTemplate::Poncho => "poncho"@,
    }
}

/// The name shown to people.
pub open spec fn template_display_name(template: GarmentTemplate) -> Seq<char> {
    match template {
        GarmentTemplate::Sheet => "Sheet"@,
        GarmentTemplate::TShirt => "T-shirt"@,
        GarmentTemplate::Cape => "Cape"@,
        GarmentTemplate::Skirt => "Skirt"@,
        GarmentTemplate::Dress => "Dress"@,
        GarmentTemplate::Poncho => "Poncho"@,
    }
}

/// The source kind recorded for a template-built session.
pub open spec fn template_source_kind(template: GarmentTemplate) -> Seq<char> {
    match template {
        GarmentTemplate::Sheet => "template-sheet"@,
        GarmentTemplate::TShirt => "template-t-shirt"@,
        GarmentTemplate::Cape => "template-cape"@,
        GarmentTemplate::Skirt => "template-skirt"@,
        GarmentTemplate::Dress => "template-dress"@,
        GarmentTemplate::Poncho => "template-poncho"@,
    }
}

/// The one-line description of a template.
pub open spec fn template_summary(template: GarmentTemplate) -> Seq<char> {
    match template {
        GarmentTemplate::Sheet => "Free sheet fixture with an editable capsule obstacle and no mannequin."@,
        GarmentTemplate::TShirt => "Short-sleeve front drape over the mannequin torso and arms."@,
        GarmentTemplate::Cape => "Back drape pinned at the shoulders against the mannequin upper body."@,
        GarmentTemplate::Skirt => "Waist-pinned flared drape using pelvis and leg collision geometry."@,
        GarmentTemplate::Dress => "Long torso-to-knee drape combining a fitted waist with a flared lower section."@,
        GarmentTemplate::Poncho => "Wide shoulder-pinned drape for broad folds across the upper body."@,
    }
}

/// The template whose key is exactly `text`, if any (keys are tried in catalogue order).
pub open spec fn template_from_key(text: Seq<char>) -> Option<GarmentTemplate> {
    if text == template_key(GarmentTemplate::Sheet) {
        Some(GarmentTemplate::Sheet)
    } else if text == template_key(GarmentTemplate::TShirt) {
        Some(GarmentTemplate::TShirt)
    } else if text == template_key(GarmentTemplate::Cape) {
        Some(GarmentTemplate::Cape)
    } else if text == template_key(GarmentTemplate::Skirt) {
        Some(GarmentTemplate::Skirt)
    } else if text == template_key(GarmentTemplate::Dress) {
        Some(GarmentTemplate::Dress)
    } else if text == template_key(GarmentTemplate::Poncho) {
        Some(GarmentTemplate::Poncho)
    } else {
        None
    }
}

/// The number of vertex rows a template uses for `columns` vertex columns, keeping each drape's
/// proportions (rounded to the nearest row).
pub open spec fn template_rows(template: GarmentTemplate, columns: int) -> int {
    match template {
        GarmentTemplate::Sheet => ((columns - 1) * 11 + 6) / 13 + 1,
        GarmentTemplate::TShirt => ((columns - 1) * 5 + 3) / 6 + 1,
        GarmentTemplate::Cape => ((columns - 1) * 4 + 1) / 3 + 1,
        GarmentTemplate::Skirt => ((columns - 1) * 3 + 2) / 4 + 1,
        GarmentTemplate::Dress => ((columns - 1) * 7 + 3) / 5 + 1,
        GarmentTemplate::Poncho => ((columns - 1) * 6 + 2) / 5 + 1,
    }
}

/// Triangle `k` of a regular grid with `columns` vertex columns: cell `k / 2` in row-major order,
/// split along the diagonal from its top-right to its bottom-left corner, upper triangle first.
pub open spec fn grid_triangle(columns: int, k: int) -> [usize; 3] {
    let cell = k / 2;
    let row = cell / (columns - 1);
    let column = cell % (columns - 1);
    let top_left = row * columns + column;
    let bottom_left = (row + 1) * columns + column;
    if k % 2 == 0 {
        [top_left as usize, bottom_left as usize, (top_left + 1) as usize]
    } else {
        [(top_left + 1) as usize, bottom_left as usize, (bottom_left + 1) as usize]
    }
}

/// The triangles of a regular `columns` by `rows` vertex grid, two per cell.
pub open spec fn grid_triangles(columns: int, rows: int) -> Seq<[usize; 3]> {
    Seq::new((2 * (columns - 1) * (rows - 1)) as nat, |k: int| grid_triangle(columns, k))
}

fn same_chars(first: &Vec<char>, second: &Vec<char>) -> (same: bool)
    ensures
        same == (first@ == second@),
{
    if first.len() != second.len() {
        return false;
    }
    let mut i: usize = 0;
    while i < first.len()
        invariant
            i <= first@.len(),
            first@.len() == second@.len(),
            forall|k: int| 0 <= k < i ==> first@[k] == second@[k],
        decreases first.len() - i,
    {
        if first[i] != second[i] {
            return false;
        }
        i = i + 1;
    }
    assert(first@ =~= second@);
    true
}

impl GarmentTemplate {
    /// Every template, in catalogue order.
    pub const ALL: [GarmentTemplate; 6] = [
        GarmentTemplate::Sheet,
        GarmentTemplate::TShirt,
        GarmentTemplate::Cape,
        GarmentTemplate::Skirt,
        GarmentTemplate::Dress,
        GarmentTemplate::Poncho,
    ];

    /// The name shown to people.
    pub fn display_name(self) -> (name: &'static str)
        ensures
            name@ == template_display_name(self),
    {
        match self {
            GarmentTemplate::Sheet => "Sheet",
            GarmentTemplate::TShirt => "T-shirt",
            GarmentTemplate::Cape => "Cape",
            GarmentTemplate::Skirt => "Skirt",
            GarmentTemplate::Dress => "Dress",
            GarmentTemplate::Poncho => "Poncho",
        }
    }

    /// The one-line description of the template.
    pub fn summary(self) -> (summary: &'static str)
        ensures
            summary@ == template_summary(self),
    {
        match self {
            GarmentTemplate::Sheet => "Free sheet fixture with an editable capsule obstacle and no mannequin.",
            GarmentTemplate::TShirt => "Short-sleeve front drape over the mannequin torso and arms.",
            GarmentTemplate::Cape => "Back drape pinned at the shoulders against the mannequin upper body.",
            GarmentTemplate::Skirt => "Waist-pinned flared drape using pelvis and leg collision geometry.",
            GarmentTemplate::Dress => "Long torso-to-knee drape combining a fitted waist with a flared lower section.",
            GarmentTemplate::Poncho => "Wide shoulder-pinned drape for broad folds across the upper body.",
        }
    }

    /// Whether the template drapes over the mannequin (every template but the free sheet).
    pub fn uses_mannequin(self) -> (uses: bool)
        ensures
            uses == (self != GarmentTemplate::Sheet),
    {
        !matches!(self, GarmentTemplate::Sheet)
    }

    /// The stable key used to select the template.
    pub fn key(self) -> (key: &'static str)
        ensures
            key@ == template_key(self),
    {
        match self {
            GarmentTemplate::Sheet => "sheet",
            GarmentTemplate::TShirt => "t-shirt",
            GarmentTemplate::Cape => "cape",
            GarmentTemplate::Skirt => "skirt",
            GarmentTemplate::Dress => "dress",
            GarmentTemplate::Poncho => "poncho",
        }
    }

    /// The source kind recorded for a session built from the template.
    pub fn source_kind(self) -> (kind: &'static str)
        ensures
            kind@ == template_source_kind(self),
    {
        match self {
            GarmentTemplate::Sheet => "template-sheet",
            GarmentTemplate::TShirt => "template-t-shirt",
            GarmentTemplate::Cape => "template-cape",
            GarmentTemplate::Skirt => "template-skirt",
            GarmentTemplate::Dress => "template-dress",
            GarmentTemplate::Poncho => "template-poncho",
        }
    }

    /// The template whose key is exactly `value`; `None` for any other text.
    pub fn from_key(value: &str) -> (template: Option<GarmentTemplate>)
        ensures
            template == template_from_key(value@),
    {
        let text = str_chars(value);
        if same_chars(&text, &str_chars(GarmentTemplate::Sheet.key())) {
            return Some(GarmentTemplate::Sheet);
        }
        if same_chars(&text, &str_chars(GarmentTemplate::TShirt.key())) {
            return Some(GarmentTemplate::TShirt);
        }
        if same_chars(&text, &str_chars(GarmentTemplate::Cape.key())) {
            return Some(GarmentTemplate::Cape);
        }
        if same_chars(&text, &str_chars(GarmentTemplate::Skirt.key())) {
            return Some(GarmentTemplate::Skirt);
        }
        if same_chars(&text, &str_chars(GarmentTemplate::Dress.key())) {
            return Some(GarmentTemplate::Dress);
        }
        if same_chars(&text, &str_chars(GarmentTemplate::Poncho.key())) {
            return Some(GarmentTemplate::Poncho);
        }
        None
    }

    /// The vertex grid a template is built on: `resolution` columns (between
    /// [`MIN_TEMPLATE_RESOLUTION`] and [`MAX_TEMPLATE_RESOLUTION`]) and the rows that keep the
    /// template's proportions.
    pub fn grid_dimensions(self, resolution: u32) -> (grid: Result<(usize, usize), GarmentTemplateError>)
        ensures
            grid is Err <==> !(MIN_TEMPLATE_RESOLUTION <= resolution <= MAX_TEMPLATE_RESOLUTION),
            grid matches Err(e) ==> e == GarmentTemplateError::ResolutionOutOfRange,
            grid matches Ok((columns, rows)) ==> columns == resolution && rows == template_rows(
                self,
                columns as int,
            ),
    {
        if resolution < MIN_TEMPLATE_RESOLUTION || resolution > MAX_TEMPLATE_RESOLUTION {
            return Err(GarmentTemplateError::ResolutionOutOfRange);
        }
        let columns = resolution as usize;
        let rows = match self {
            GarmentTemplate::Sheet => ((columns - 1) * 11 + 6) / 13 + 1,
            GarmentTemplate::TShirt => ((columns - 1) * 5 + 3) / 6 + 1,
            GarmentTemplate::Cape => ((columns - 1) * 4 + 1) / 3 + 1,
            GarmentTemplate::Skirt => ((columns - 1) * 3 + 2) / 4 + 1,
            GarmentTemplate::Dress => ((columns - 1) * 7 + 3) / 5 + 1,
            GarmentTemplate::Poncho => ((columns - 1) * 6 + 2) / 5 + 1,
        };
        Ok((columns, rows))
    }
}

/// The triangles of a regular `columns` by `rows` vertex grid (vertices numbered row by row):
/// two per cell, cells in row-major order, each split along its top-right to bottom-left
/// diagonal.
pub fn regular_grid_triangles(columns: usize, rows: usize) -> (triangles: Vec<[usize; 3]>)
    requires
        columns >= 1,
        rows >= 1,
        columns * rows <= usize::MAX,
    ensures
        triangles@ == grid_triangles(columns as int, rows as int),
{
    let mut triangles: Vec<[usize; 3]> = Vec::new();
    let mut row: usize = 0;
    while row < rows - 1
        invariant
            columns >= 1,
            rows >= 1,
            columns * rows <= usize::MAX,
            row <= rows - 1,
            triangles@.len() == 2 * (columns - 1) * row,
            forall|k: int|
                0 <= k < triangles@.len() ==> #[trigger] triangles@[k] == grid_triangle(
                    columns as int,
                    k,
                ),
        decreases rows - 1 - row,
    {
        let mut column: usize = 0;
        assert(2 * (columns - 1) * row == 2 * ((columns - 1) * row)) by (nonlinear_arith);
        while column < columns - 1
            invariant
                columns >= 1,
                rows >= 1,
                columns * rows <= usize::MAX,
                row < rows - 1,
                column <= columns - 1,
                triangles@.len() == 2 * ((columns - 1) * row + column),
                forall|k: int|
                    0 <= k < triangles@.len() ==> #[trigger] triangles@[k] == grid_triangle(
                        columns as int,
                        k,
                    ),
            decreases columns - 1 - column,
        {
            assert((row + 1) * columns + column + 1 <= columns * rows) by (nonlinear_arith)
                requires
                    row + 1 <= rows - 1,
                    column + 1 <= columns - 1,
            ;
            assert(row * columns <= (row + 1) * columns) by (nonlinear_arith);
            let top_left = row * columns + column;
            let top_right = top_left + 1;
            let bottom_left = (row + 1) * columns + column;
            let bottom_right = bottom_left + 1;
            let ghost cell = (columns - 1) * row + column;
            proof {
                assert((columns - 1) * row == row * (columns - 1)) by (nonlinear_arith);
                vstd::arithmetic::div_mod::lemma_fundamental_div_mod_converse(
                    cell,
                    columns - 1,
                    row as int,
                    column as int,
                );
                vstd::arithmetic::div_mod::lemma_fundamental_div_mod_converse(2 * cell, 2, cell, 0);
                vstd::arithmetic::div_mod::lemma_fundamental_div_mod_converse(
                    2 * cell + 1,
                    2,
                    cell,
                    1,
                );
            }
            triangles.push([top_left, bottom_left, top_right]);
            triangles.push([top_right, bottom_left, bottom_right]);
            column = column + 1;
        }
        assert(2 * ((columns - 1) * row + (columns - 1)) == 2 * (columns - 1) * (row + 1))
            by (nonlinear_arith);
        row = row + 1;
    }
    assert(triangles@ =~= grid_triangles(columns as int, rows as int));
    triangles
}

/// Every triangle of a regular grid addresses an existing vertex of the grid and has three
/// distinct corners.
pub proof fn lemma_grid_triangles_are_valid(columns: int, rows: int, k: int)
    requires
        columns >= 2,
        rows >= 2,
        0 <= k < 2 * (columns - 1) * (rows - 1),
        columns * rows <= usize::MAX,
    ensures
        triangle_is_valid(grid_triangles(columns, rows)[k], columns * rows),
{
    let cell = k / 2;
    let row = cell / (columns - 1);
    let column = cell % (columns - 1);
    assert(cell < (columns - 1) * (rows - 1)) by (nonlinear_arith)
        requires
            0 <= k < 2 * (columns - 1) * (rows - 1),
            cell == k / 2,
    ;
    assert(0 <= row < rows - 1 && 0 <= column < columns - 1) by (nonlinear_arith)
        requires
            0 <= cell < (columns - 1) * (rows - 1),
            columns >= 2,
            row == cell / (columns - 1),
            column == cell % (columns - 1),
    ;
    assert((row + 1) * columns + column + 1 < columns * rows) by (nonlinear_arith)
        requires
            0 <= row,
            row + 1 <= rows - 1,
            0 <= column,
            column + 1 <= columns - 1,
            columns >= 2,
    ;
    assert(0 <= row * columns) by (nonlinear_arith)
        requires
            row >= 0,
            columns >= 0,
    ;
    assert((row + 1) * columns == row * columns + columns) by (nonlinear_arith);
    assert(grid_triangles(columns, rows)[k] == grid_triangle(columns, k));
    let top_left = row * columns + column;
    let bottom_left = (row + 1) * columns + column;
    assert(0 <= top_left);
    assert(top_left + 1 < bottom_left);
    assert(bottom_left + 1 < columns * rows);
    assert(top_left as usize == top_left && bottom_left as usize == bottom_left);
    assert((top_left + 1) as usize == top_left + 1 && (bottom_left + 1) as usize == bottom_left + 1);
}

/// Selecting a template by its own key gives that template back.
pub proof fn lemma_template_key_round_trip(template: GarmentTemplate)
    ensures
        template_from_key(template_key(template)) == Some(template),
{
    reveal_strlit("sheet");
    reveal_strlit("t-shirt");
    reveal_strlit("cape");
    reveal_strlit("skirt");
    reveal_strlit("dress");
    reveal_strlit("poncho");
    assert("sheet"@[1] != "skirt"@[1]);
    assert("sheet"@[0] != "dress"@[0]);
    assert("skirt"@[0] != "dress"@[0]);
    assert("sheet"@.len() != "t-shirt"@.len());
    assert("sheet"@.len() != "cape"@.len());
    assert("sheet"@.len() != "poncho"@.len());
    assert("t-shirt"@.len() != "cape"@.len());
    assert("t-shirt"@.len() != "skirt"@.len());
    assert("t-shirt"@.len() != "dress"@.len());
    assert("t-shirt"@.len() != "poncho"@.len());
    assert("cape"@.len() != "skirt"@.len());
    assert("cape"@.len() != "dress"@.len());
    assert("cape"@.len() != "poncho"@.len());
    assert("skirt"@.len() != "poncho"@.len());
    assert("dress"@.len() != "poncho"@.len());
}

} // verus!
