//! The authorization laid out for a printed page: what stands on the page,
//! in which order and in which type. Drawing it is left to a backend.
use crate::domain::form::{str_text_of, AuthorizationRequest, AutorisationForm, Guardian};
use crate::domain::format::{human_date, human_date_fr};
use crate::domain::text::same_text;
use vstd::prelude::*;

verus! {

/// The paper that the pages are cut to.
#[derive(Debug, Clone, Copy, PartialEq, Eq, Structural)]
pub enum PaperSize {
    A4,
    Letter,
}

/// Where a line of text stands between the margins.
#[derive(Debug, Clone, Copy, PartialEq, Eq, Structural)]
pub enum Align {
    Left,
    Center,
    Right,
}

/// One thing on the page, below the one before it.
#[derive(Debug, Clone, PartialEq, Eq)]
pub enum Block {
    /// A paragraph, in type of `size` points.
    Text { text: String, size: u8, bold: bool, align: Align },
    /// Empty space, as high as `quarters` quarters of a line of body text.
    Space { quarters: u8 },
}

/// Model of a [`Block`].
pub enum BlockView {
    Text { text: Seq<char>, size: u8, bold: bool, align: Align },
    Space { quarters: u8 },
}

impl View for Block {
    type V = BlockView;

    open spec fn view(&self) -> BlockView {
        match *self {
            Block::Text { text, size, bold, align } => BlockView::Text {
                text: text@,
                size,
                bold,
                align,
            },
            Block::Space { quarters } => BlockView::Space { quarters },
        }
    }
}

/// The models of `blocks`, in order.
pub open spec fn block_views(blocks: Seq<Block>) -> Seq<BlockView> {
    Seq::new(blocks.len(), |i: int| blocks[i]@)
}

/// Page margins, in millimetres.
pub const MARGIN_LEFT_MM: u16 = 20;

pub const MARGIN_RIGHT_MM: u16 = 20;

pub const MARGIN_TOP_MM: u16 = 18;

pub const MARGIN_BOTTOM_MM: u16 = 18;

/// Type sizes, in points.
pub const H1_PT: u8 = 32;

pub const H2_PT: u8 = 24;

pub const H3_PT: u8 = 18;

pub const BODY_PT: u8 = 16;

pub const CAPTION_PT: u8 = 12;

/// The size that the page header is set in unless a block says otherwise.
pub const HEADER_PT: u8 = 14;

/// Heights of empty space, in quarters of a line of body text.
pub const GAP_SMALL: u8 = 1;

pub const GAP_MEDIUM: u8 = 2;

pub const GAP_LARGE: u8 = 4;

/// The title of the document.
pub open spec fn title() -> Seq<char> {
    "Autorisation de sortie"@
}

/// A paragraph of body text.
pub open spec fn body(text: Seq<char>) -> BlockView {
    BlockView::Text { text, size: BODY_PT, bold: false, align: Align::Left }
}

/// A heading at the left margin.
pub open spec fn heading(text: Seq<char>, size: u8) -> BlockView {
    BlockView::Text { text, size, bold: true, align: Align::Left }
}

/// Empty space.
pub open spec fn gap(quarters: u8) -> BlockView {
    BlockView::Space { quarters }
}

/// The title, centred, and the space under it.
pub open spec fn title_blocks() -> Seq<BlockView> {
    seq![
        BlockView::Text { text: title(), size: H1_PT, bold: true, align: Align::Center },
        gap(GAP_LARGE),
    ]
}

/// The child's name as a heading, then the day, written out, and the place.
pub open spec fn outing_blocks(request: AuthorizationRequest) -> Seq<BlockView> {
    seq![
        heading(request.child.full_name(), H2_PT),
        body("Date: "@ + human_date(request.date)),
        body("Lieu: "@ + request.place),
        gap(GAP_MEDIUM),
    ]
}

/// The class, where one is given.
pub open spec fn class_blocks(class_name: Option<Seq<char>>) -> Seq<BlockView> {
    match class_name {
        Some(name) => seq![body("Classe : "@ + name), gap(GAP_SMALL)],
        None => Seq::empty(),
    }
}

/// The guardian, where one is named: the name, then the telephone number if
/// there is one.
pub open spec fn guardian_blocks(guardian: Option<Guardian>) -> Seq<BlockView> {
    match guardian {
        Some(g) => {
            let phone = match g.phone {
                Some(number) => seq![body("Tél : "@ + number)],
                None => Seq::empty(),
            };
            seq![body("Responsable légal : "@ + g.name)] + phone + seq![gap(GAP_MEDIUM)]
        },
        None => Seq::empty(),
    }
}

/// The reason under its own heading, where one is given.
pub open spec fn reason_blocks(reason: Option<Seq<char>>) -> Seq<BlockView> {
    match reason {
        Some(text) => seq![heading("Motif :"@, H3_PT), body(text), gap(GAP_SMALL)],
        None => Seq::empty(),
    }
}

/// The lines that end the page, left blank for place, day and signature.
pub open spec fn signature_blocks() -> Seq<BlockView> {
    seq![
        body("Fait à _______________________, le _______________________"@),
        gap(GAP_LARGE),
        body("Signature du responsable légal :"@),
        gap(GAP_LARGE),
        BlockView::Text {
            text: "____________________________"@,
            size: CAPTION_PT,
            bold: false,
            align: Align::Right,
        },
    ]
}

/// Everything on the page below its header: the title, then the fields in
/// the order of the Markdown text, then the signature block.
pub open spec fn page_blocks(request: AuthorizationRequest) -> Seq<BlockView> {
    title_blocks()
        + outing_blocks(request)
        + class_blocks(request.class_name)
        + guardian_blocks(request.guardian)
        + reason_blocks(request.reason)
        + signature_blocks()
}

/// What is printed above page number `page`, the first being page 1: the
/// school's name on the first page, if a school is named, and nothing on
/// the pages after it.
pub open spec fn header_blocks(school: Option<Seq<char>>, page: int) -> Seq<BlockView> {
    match school {
        Some(name) if page == 1 && name.len() > 0 => seq![
            BlockView::Text { text: name, size: H2_PT, bold: true, align: Align::Center },
            gap(GAP_SMALL),
        ],
        _ => Seq::empty(),
    }
}

/// `label` followed by `value`.
fn labelled(label: &str, value: &str) -> (text: String)
    ensures
        text@ == label@ + value@,
{
    let mut text = String::new();
    text.append(label);
    text.append(value);
    assert(text@ =~= label@ + value@);
    text
}

/// A paragraph of body text.
fn body_block(text: String) -> (block: Block)
    ensures
        block@ == body(text@),
{
    Block::Text { text, size: BODY_PT, bold: false, align: Align::Left }
}

/// Lays the form out: the blocks of the page, from the title down to the
/// signature line.
pub fn layout_page(form: &AutorisationForm) -> (blocks: Vec<Block>)
    ensures
        block_views(blocks@) == page_blocks(form@),
{
    let mut blocks: Vec<Block> = Vec::new();
    blocks.push(
        Block::Text {
            text: "Autorisation de sortie".to_owned(),
            size: H1_PT,
            bold: true,
            align: Align::Center,
        },
    );
    blocks.push(Block::Space { quarters: GAP_LARGE });
    assert(block_views(blocks@) =~= title_blocks());

    let name = form.enfant.full_name();
    let date = human_date_fr(form.date.as_str());
    blocks.push(Block::Text { text: name, size: H2_PT, bold: true, align: Align::Left });
    blocks.push(body_block(labelled("Date: ", date.as_str())));
    blocks.push(body_block(labelled("Lieu: ", form.lieu.as_str())));
    blocks.push(Block::Space { quarters: GAP_MEDIUM });
    assert(block_views(blocks@) =~= title_blocks() + outing_blocks(form@));

    let ghost above = block_views(blocks@);
    if let Some(classe) = &form.classe {
        blocks.push(body_block(labelled("Classe : ", classe.as_str())));
        blocks.push(Block::Space { quarters: GAP_SMALL });
    }
    assert(block_views(blocks@) =~= above + class_blocks(form@.class_name));

    let ghost above = block_views(blocks@);
    if let Some(resp) = &form.responsable {
        blocks.push(body_block(labelled("Responsable légal : ", resp.nom.as_str())));
        if let Some(tel) = &resp.telephone {
            blocks.push(body_block(labelled("Tél : ", tel.as_str())));
        }
        blocks.push(Block::Space { quarters: GAP_MEDIUM });
    }
    assert(block_views(blocks@) =~= above + guardian_blocks(form@.guardian));

    let ghost above = block_views(blocks@);
    if let Some(motif) = &form.motif {
        blocks.push(
            Block::Text { text: "Motif :".to_owned(), size: H3_PT, bold: true, align: Align::Left },
        );
        blocks.push(body_block(motif.clone()));
        blocks.push(Block::Space { quarters: GAP_SMALL });
    }
    assert(block_views(blocks@) =~= above + reason_blocks(form@.reason));

    let ghost above = block_views(blocks@);
    blocks.push(
        body_block("Fait à _______________________, le _______________________".to_owned()),
    );
    blocks.push(Block::Space { quarters: GAP_LARGE });
    blocks.push(body_block("Signature du responsable légal :".to_owned()));
    blocks.push(Block::Space { quarters: GAP_LARGE });
    blocks.push(
        Block::Text {
            text: "____________________________".to_owned(),
            size: CAPTION_PT,
            bold: false,
            align: Align::Right,
        },
    );
    assert(block_views(blocks@) =~= above + signature_blocks());
    blocks
}

/// The blocks printed above page number `page`, the first being page 1.
pub fn page_header(school_name: Option<&str>, page: usize) -> (blocks: Vec<Block>)
    ensures
        block_views(blocks@) == header_blocks(str_text_of(school_name), page as int),
{
    let mut blocks: Vec<Block> = Vec::new();
    if page == 1 {
        if let Some(school) = school_name {
            if !school.is_empty() {
                blocks.push(
                    Block::Text {
                        text: school.to_owned(),
                        size: H2_PT,
                        bold: true,
                        align: Align::Center,
                    },
                );
                blocks.push(Block::Space { quarters: GAP_SMALL });
            }
        }
    }
    assert(block_views(blocks@) =~= header_blocks(str_text_of(school_name), page as int));
    blocks
}

/// The text `s` in capitals, as `str::to_uppercase` of std gives it.
pub uninterp spec fn uppercase(s: Seq<char>) -> Seq<char>;

/// `str::to_uppercase` of std: a new text, each character replaced by its
/// upper case as Unicode defines it, which for some is more than one
/// character. The contract claims only that the result depends on the text
/// alone, and gives it the name `uppercase`.
#[verifier::external_body]
fn to_uppercase(s: &str) -> (upper: String)
    ensures
        upper@ == uppercase(s@),
{
    s.to_uppercase()
}

/// The paper that a name in capitals stands for: `Letter` for the three
/// spellings of it, `A4` for everything else.
pub open spec fn paper_named(upper: Seq<char>) -> PaperSize {
    if upper == "LETTER"@ || upper == "USLETTER"@ || upper == "US_LETTER"@ {
        PaperSize::Letter
    } else {
        PaperSize::A4
    }
}

/// The paper that a name in capitals stands for.
pub fn paper_size_for(upper: &str) -> (paper: PaperSize)
    ensures
        paper == paper_named(upper@),
{
    if same_text(upper, "LETTER") || same_text(upper, "USLETTER") || same_text(upper, "US_LETTER") {
        PaperSize::Letter
    } else {
        PaperSize::A4
    }
}

/// The paper that a name stands for, whatever the case it is written in.
pub fn paper_size_from_name(name: &str) -> (paper: PaperSize)
    ensures
        paper == paper_named(uppercase(name@)),
{
    let upper = to_uppercase(name);
    paper_size_for(upper.as_str())
}

/// Whether `pt` is the whole number of points nearest to `mm` millimetres,
/// at 72 points to the inch of 25.4 mm. No length lies half-way between
/// two whole numbers of points, so there is one such number.
pub open spec fn is_nearest_point(mm: int, pt: int) -> bool {
    -127 <= 254 * pt - 720 * mm <= 127
}

/// The smallest of the four page margins, in millimetres.
pub open spec fn smallest_margin_mm() -> int {
    let side = if MARGIN_LEFT_MM <= MARGIN_RIGHT_MM { MARGIN_LEFT_MM } else { MARGIN_RIGHT_MM };
    let edge = if MARGIN_TOP_MM <= MARGIN_BOTTOM_MM { MARGIN_TOP_MM } else { MARGIN_BOTTOM_MM };
    if side <= edge { side as int } else { edge as int }
}

/// A length in points, for one in millimetres, rounded to the nearest
/// point.
pub fn points_from_mm(mm: u16) -> (pt: u32)
    ensures
        is_nearest_point(mm as int, pt as int),
{
    (mm as u32 * 720 + 127) / 254
}

/// The margin that every side of the page gets: the smallest of the four
/// margins, in points. That is 51 points, for 18 mm.
pub fn page_margin() -> (pt: u32)
    ensures
        is_nearest_point(smallest_margin_mm(), pt as int),
        pt == 51,
{
    let mut mm = MARGIN_LEFT_MM;
    if MARGIN_RIGHT_MM < mm {
        mm = MARGIN_RIGHT_MM;
    }
    if MARGIN_TOP_MM < mm {
        mm = MARGIN_TOP_MM;
    }
    if MARGIN_BOTTOM_MM < mm {
        mm = MARGIN_BOTTOM_MM;
    }
    points_from_mm(mm)
}

/// What the renderer is told beyond the form: the paper, and the font
/// family to look for first.
#[derive(Debug, Clone)]
pub struct PdfConfig {
    pub paper: PaperSize,
    pub font_family: String,
}

/// The font family looked for where none is asked for.
pub open spec fn default_font_family() -> Seq<char> {
    "Inter"@
}

/// The pairs of directory and family to try in one directory, in order:
/// the preferred family, then the two that most systems have.
pub open spec fn search_in(dir: Seq<char>, preferred: Seq<char>) -> Seq<(Seq<char>, Seq<char>)> {
    seq![(dir, preferred), (dir, "DejaVuSans"@), (dir, "LiberationSans"@)]
}

/// Where fonts are looked for, as pairs of a directory and a family, in
/// the order in which to try them: the directories one after the other, and
/// in each of them every family before the next directory.
pub open spec fn font_search_order(preferred: Seq<char>) -> Seq<(Seq<char>, Seq<char>)> {
    search_in("./fonts"@, preferred)
        + search_in("./assets/fonts"@, preferred)
        + search_in("/usr/share/fonts/truetype/dejavu"@, preferred)
        + search_in("/usr/share/fonts"@, preferred)
        + search_in("/usr/local/share/fonts"@, preferred)
}

/// The texts of pairs of strings.
pub open spec fn pair_texts(pairs: Seq<(String, String)>) -> Seq<(Seq<char>, Seq<char>)> {
    Seq::new(pairs.len(), |i: int| (pairs[i].0@, pairs[i].1@))
}

/// Appends the pairs to try in `dir`.
fn push_search_in(pairs: &mut Vec<(String, String)>, dir: &str, preferred: &str)
    ensures
        pair_texts(final(pairs)@) == pair_texts(old(pairs)@) + search_in(dir@, preferred@),
{
    pairs.push((dir.to_owned(), preferred.to_owned()));
    pairs.push((dir.to_owned(), "DejaVuSans".to_owned()));
    pairs.push((dir.to_owned(), "LiberationSans".to_owned()));
    assert(pair_texts(pairs@) =~= pair_texts(old(pairs)@) + search_in(dir@, preferred@));
}

impl PdfConfig {
    /// The configuration that two settings make, either of which may be
    /// left out: A4 where no paper is named, and the default family where
    /// no font is.
    pub fn from_settings(page_size: Option<&str>, font_family: Option<&str>) -> (config: PdfConfig)
        ensures
            config.paper == match page_size {
                Some(name) => paper_named(uppercase(name@)),
                None => PaperSize::A4,
            },
            config.font_family@ == match font_family {
                Some(family) => family@,
                None => default_font_family(),
            },
    {
        let paper = match page_size {
            Some(name) => paper_size_from_name(name),
            None => PaperSize::A4,
        };
        let family = match font_family {
            Some(family) => family.to_owned(),
            None => "Inter".to_owned(),
        };
        PdfConfig { paper, font_family: family }
    }

    /// Where to look for a font, as pairs of a directory and a family, in
    /// the order in which to try them.
    pub fn font_search(&self) -> (pairs: Vec<(String, String)>)
        ensures
            pair_texts(pairs@) == font_search_order(self.font_family@),
    {
        let preferred = self.font_family.as_str();
        let mut pairs: Vec<(String, String)> = Vec::new();
        assert(pair_texts(pairs@) =~= Seq::empty());
        push_search_in(&mut pairs, "./fonts", preferred);
        push_search_in(&mut pairs, "./assets/fonts", preferred);
        push_search_in(&mut pairs, "/usr/share/fonts/truetype/dejavu", preferred);
        push_search_in(&mut pairs, "/usr/share/fonts", preferred);
        push_search_in(&mut pairs, "/usr/local/share/fonts", preferred);
        assert(pair_texts(pairs@) =~= font_search_order(self.font_family@));
        pairs
    }
}

} // verus!
