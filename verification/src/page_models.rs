//! Plain records of the page model: page and document kinds, pagination
//! actions and page commands, font identity, layout roles and modes, field
//! parts, marker kinds and the placeholders of native page objects.

use vstd::prelude::*;

verus! {

/// An edit of a selected character range.
#[derive(Clone, Debug, Default)]
pub struct BaseEditIntent {
    pub selection_start: usize,
    pub selection_end: usize,
    pub new_text: String,
}

/// An edit of a paragraph, or of one part of a label/value field.
#[derive(Clone, Debug)]
pub enum EditIntent {
    Paragraph(BaseEditIntent),
    Field {
        base: BaseEditIntent,
        active_part: String,
        new_key_text: String,
        new_value_text: String,
    },
}

/// What a page holds, as far as it has been classified.
#[derive(Clone, Copy, Debug, Default, PartialEq, Eq, Structural)]
pub enum LightPageKind {
    #[default]
    Pending,
    Scanned,
    Mixed,
    Text,
}

/// What a document holds.
#[derive(Clone, Copy, Debug, Default, PartialEq, Eq, Structural)]
pub enum PdfDocumentKind {
    #[default]
    Unknown,
    Scanned,
    Mixed,
    Vector,
}

/// Why a document was classified as it was.
#[derive(Clone, Copy, Debug, Default, PartialEq, Eq, Structural)]
pub enum ClassificationReason {
    FullPageImageNoText,
    FullPageImageWithOcrLayer,
    TextOperatorsDominant,
    FontResourcesDominant,
    LowConfidenceFallback,
    #[default]
    Unknown,
}

/// What the pager does with a page.
#[derive(Clone, Copy, Debug, PartialEq, Eq, Structural)]
pub enum PaginationAction {
    Prefetch,
    Release,
    Upgrade,
}

#[derive(Clone, Copy, Debug, Default, PartialEq, Eq, Structural)]
pub struct DeletePageCommand {
    pub page_num: u32,
}

#[derive(Clone, Copy, Debug, Default, PartialEq, Eq, Structural)]
pub struct RotatePageCommand {
    pub page_num: u32,
    pub delta: i32,
}

#[derive(Clone, Copy, Debug, Default, PartialEq, Eq, Structural)]
pub struct InsertPageCommand {
    pub at_index: u32,
}

#[derive(Clone, Debug, Default)]
pub struct UpdateMetadataCommand {
    pub title: String,
    pub author: String,
    pub subject: String,
    pub keywords: String,
}

/// Where the font that renders a run comes from.
#[derive(Clone, Copy, Debug, Default, PartialEq, Eq, Structural)]
pub enum FontSourceKind {
    Embedded,
    SystemMatched,
    Substituted,
    #[default]
    Fallback,
}

/// Symbol class of a font (`NoSymbol` for an ordinary text font).
#[derive(Clone, Copy, Debug, Default, PartialEq, Eq, Structural)]
pub enum SymbolClass {
    #[default]
    NoSymbol,
    Symbol,
    Dingbat,
}

/// The identity of a font after its name was resolved.
#[derive(Clone, Debug, Default)]
pub struct ResolvedFontIdentity {
    pub raw_name: String,
    pub canonical_family: String,
    pub style_name: String,
    pub weight: i32,
    pub is_italic: bool,
    pub symbol_class: SymbolClass,
    pub subset_stripped: bool,
}

/// The part of a label/value field that is edited.
#[derive(Clone, Copy, Debug, Default, PartialEq, Eq, Structural)]
pub enum FieldPartKind {
    Key,
    #[default]
    Value,
}

#[derive(Clone, Copy, Debug, Default, PartialEq, Eq, Structural)]
pub enum FieldKind {
    #[default]
    Unknown,
    LabelValue,
}

/// What a field means (`NoRole` where nothing was recognised).
#[derive(Clone, Copy, Debug, Default, PartialEq, Eq, Structural)]
pub enum SemanticRole {
    #[default]
    NoRole,
    Title,
    Header,
    Date,
    Amount,
    Email,
    PhoneNumber,
    Contact,
    Address,
    GenericField,
    BodyText,
}

/// A label/value pair found among the runs of a block.
#[derive(Clone, Debug, Default)]
pub struct EditableFieldGroup {
    pub label_text: String,
    pub value_text: String,
    pub value_start_index: usize,
    pub field_name: String,
    pub field_kind: FieldKind,
    pub label_start_run_index: usize,
    pub label_end_run_index: usize,
    pub value_start_run_index: usize,
    pub value_end_run_index: usize,
    pub semantic_role: SemanticRole,
}

#[derive(Clone, Copy, Debug, Default, PartialEq, Eq, Structural)]
pub enum LayoutRole {
    Title,
    SectionHeader,
    KvField,
    ListItem,
    #[default]
    Paragraph,
    PageMeta,
    FixedBlock,
    AnchoredObject,
}

#[derive(Clone, Copy, Debug, Default, PartialEq, Eq, Structural)]
pub enum LayoutMode {
    #[default]
    Flow,
    Fixed,
    Anchored,
}

#[derive(Clone, Copy, Debug, Default, PartialEq, Eq, Structural)]
pub enum PaintMode {
    #[default]
    Fill,
    Stroke,
    FillStroke,
}

/// Kind of visual list marker (`NoMarker` where there is none).
#[derive(Clone, Copy, Debug, Default, PartialEq, Eq, Structural)]
pub enum VisualMarkerKind {
    #[default]
    NoMarker,
    TextBullet,
    TextNumbering,
    GraphicBullet,
    Custom,
}

/// A path object of a page; its geometry is not modelled.
#[derive(Clone, Copy, Debug, Default, PartialEq, Eq, Structural)]
pub struct NativePathObject {}

/// An image object of a page; its pixels are not modelled.
#[derive(Clone, Copy, Debug, Default, PartialEq, Eq, Structural)]
pub struct NativeImageObject {}

/// The colours of a vector page, as CSS colour strings.
#[derive(Clone, Debug, Default)]
pub struct VectorPalette {
    pub colors: Vec<String>,
}

/// The colours of a vector path: fill and stroke, each either given inline
/// or as an index into the page palette.
#[derive(Clone, Debug, Default, PartialEq)]
pub struct PathColors {
    pub fill_color: Option<String>,
    pub stroke_color: Option<String>,
    pub fill_color_index: Option<u8>,
    pub stroke_color_index: Option<u8>,
}

/// A colour after its palette index is resolved: the palette entry when the
/// index is within the palette, the inline colour otherwise.
pub open spec fn resolved_color(colors: Seq<String>, color: Option<String>, index: Option<u8>) -> Option<
    String,
> {
    match index {
        Some(i) => if (i as int) < colors.len() {
            Some(colors[i as int])
        } else {
            color
        },
        None => color,
    }
}

pub open spec fn decompressed(colors: Seq<String>, p: PathColors) -> PathColors {
    PathColors {
        fill_color: resolved_color(colors, p.fill_color, p.fill_color_index),
        stroke_color: resolved_color(colors, p.stroke_color, p.stroke_color_index),
        fill_color_index: None,
        stroke_color_index: None,
    }
}

fn resolve_color(palette: &VectorPalette, color: &Option<String>, index: Option<u8>) -> (out: Option<String>)
    ensures
        out == resolved_color(palette.colors@, *color, index),
{
    match index {
        Some(i) => {
            let k = i as usize;
            if k < palette.colors.len() {
                Some(palette.colors[k].clone())
            } else {
                color.clone()
            }
        },
        None => color.clone(),
    }
}

/// Replaces the palette indices of the paths by the palette colours they
/// name; an index past the palette keeps the inline colour. Every index is
/// cleared, except that an empty palette leaves the paths as they are.
pub fn decompress_palette(palette: &VectorPalette, paths: &mut Vec<PathColors>)
    ensures
        palette.colors@.len() == 0 ==> final(paths)@ == old(paths)@,
        palette.colors@.len() > 0 ==> final(paths)@ == old(paths)@.map_values(
            |p: PathColors| decompressed(palette.colors@, p),
        ),
{
    if palette.colors.len() == 0 {
        return;
    }
    let ghost start = paths@;
    let mut i: usize = 0;
    while i < paths.len()
        invariant
            paths@.len() == start.len(),
            i <= paths@.len(),
            forall|k: int| 0 <= k < i ==> #[trigger] paths@[k] == decompressed(palette.colors@, start[k]),
            forall|k: int| i <= k < paths@.len() ==> #[trigger] paths@[k] == start[k],
        decreases paths.len() - i,
    {
        let next = {
            let p = &paths[i];
            PathColors {
                fill_color: resolve_color(palette, &p.fill_color, p.fill_color_index),
                stroke_color: resolve_color(palette, &p.stroke_color, p.stroke_color_index),
                fill_color_index: None,
                stroke_color_index: None,
            }
        };
        paths.set(i, next);
        i = i + 1;
    }
    assert(paths@ =~= start.map_values(|p: PathColors| decompressed(palette.colors@, p)));
}

/// The PDF page coordinate space (origin bottom-left, y up); its conversions
/// to the y-down space work on floating-point numbers.
#[derive(Clone, Copy, Debug, PartialEq, Eq, Structural)]
pub struct PdfCoordinateSpace;

} // verus!

verus! {

/// Resolving the palette twice changes nothing more than resolving it once.
pub proof fn decompress_palette_is_idempotent(colors: Seq<String>, p: PathColors)
    ensures
        decompressed(colors, decompressed(colors, p)) == decompressed(colors, p),
{
}

} // verus!
