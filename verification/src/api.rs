use vstd::prelude::*;
use vstd::string::StringSliceAdditionalSpecFns;
use vstd::utf8::encode_utf8;
use vstd::string::{StrSliceExecFns, StringExecFns};
use crate::text::{chars_of, cut_ok, string_of, trim_chars, trim_ws};

verus! {

broadcast use vstd::string::group_string_axioms;

// ── Domain models ──

/// An edition: a dated issue with its items.
#[derive(Debug, Clone)]
pub struct Edition {
    pub title: String,
    pub date: String,
    pub items: Vec<EditionItem>,
}

/// Hex color from the API (#RRGGBB), as red, green and blue, in a light and a
/// dark variant.
#[derive(Debug, Clone, Copy, PartialEq, Eq)]
pub struct DynColor {
    pub light: Option<(u8, u8, u8)>,
    pub dark: Option<(u8, u8, u8)>,
}

/// The first of two optional colors that is present.
pub open spec fn first_present(a: Option<(u8, u8, u8)>, b: Option<(u8, u8, u8)>) -> Option<
    (u8, u8, u8),
> {
    match a {
        Some(c) => Some(c),
        None => b,
    }
}

/// A color at a quarter of each channel.
pub open spec fn quarter(c: (u8, u8, u8)) -> (u8, u8, u8) {
    ((c.0 / 4) as u8, (c.1 / 4) as u8, (c.2 / 4) as u8)
}

impl DynColor {
    /// Returns the light-mode color (used for foreground/accents on any background).
    pub fn rgb(&self) -> (r: Option<(u8, u8, u8)>)
        ensures
            r == first_present(self.light, self.dark),
    {
        match self.light {
            Some(c) => Some(c),
            None => self.dark,
        }
    }

    /// Returns the dark variant (useful for card backgrounds in dark terminals);
    /// without one, the light color at a quarter of its brightness.
    pub fn dark_rgb(&self) -> (r: Option<(u8, u8, u8)>)
        ensures
            r == match self.dark {
                Some(d) => Some(d),
                None => match self.light {
                    Some(l) => Some(quarter(l)),
                    None => None,
                },
            },
    {
        match self.dark {
            Some(d) => Some(d),
            None => match self.light {
                Some((r, g, b)) => Some((r / 4, g / 4, b / 4)),
                None => None,
            },
        }
    }

    /// Returns a color suitable as foreground on the terminal's default background:
    /// the raw API color, which is designed to be visible on light and dark terminals.
    pub fn accent_rgb(&self) -> (r: Option<(u8, u8, u8)>)
        ensures
            r == first_present(self.light, self.dark),
    {
        match self.light {
            Some(c) => Some(c),
            None => self.dark,
        }
    }
}

// ── #RRGGBB ──

/// The value of an ASCII hexadecimal digit (either case).
pub open spec fn hex_digit(b: u8) -> Option<u8> {
    if 48 <= b <= 57 {
        Some((b - 48) as u8)
    } else if 97 <= b <= 102 {
        Some((b - 87) as u8)
    } else if 65 <= b <= 70 {
        Some((b - 55) as u8)
    } else {
        None
    }
}

/// The value of a two-digit hexadecimal field (`RR`, `GG` or `BB`).
pub open spec fn hex_pair(b0: u8, b1: u8) -> Option<u8> {
    match (hex_digit(b0), hex_digit(b1)) {
        (Some(h), Some(l)) => Some((h * 16 + l) as u8),
        _ => None,
    }
}

/// The two bytes are a field that radix-16 parsing of a `u8` accepts: two
/// hex digits, or `+` and one hex digit. A text whose first field is such is
/// sliced further when it is read.
pub open spec fn radix_field(b0: u8, b1: u8) -> bool {
    (b0 == 43 && hex_digit(b1) is Some) || (hex_digit(b0) is Some && hex_digit(b1) is Some)
}

/// The color that a `#RRGGBB` text stands for, if it is one.
pub open spec fn hex_color(b: Seq<u8>) -> Option<(u8, u8, u8)> {
    if b.len() != 7 || b[0] != 35 {
        None
    } else {
        match (hex_pair(b[1], b[2]), hex_pair(b[3], b[4]), hex_pair(b[5], b[6])) {
            (Some(r), Some(g), Some(bl)) => Some((r, g, bl)),
            _ => None,
        }
    }
}

/// The text can be read as a color without slicing it inside a character:
/// the fields of a 7-byte text that starts with `#` are cut at character
/// boundaries as far as they are read.
pub open spec fn hex_readable(b: Seq<u8>) -> bool {
    (b.len() == 7 && b[0] == 35) ==> (cut_ok(b, 3) && (radix_field(b[1], b[2]) ==> cut_ok(
        b,
        5,
    )))
}

fn hex_digit_exec(b: u8) -> (r: Option<u8>)
    ensures
        r == hex_digit(b),
{
    if 48 <= b && b <= 57 {
        Some(b - 48)
    } else if 97 <= b && b <= 102 {
        Some(b - 87)
    } else if 65 <= b && b <= 70 {
        Some(b - 55)
    } else {
        None
    }
}

fn hex_pair_exec(b0: u8, b1: u8) -> (r: Option<u8>)
    ensures
        r == hex_pair(b0, b1),
{
    match (hex_digit_exec(b0), hex_digit_exec(b1)) {
        (Some(h), Some(l)) => Some(h * 16 + l),
        _ => None,
    }
}

fn radix_field_exec(b0: u8, b1: u8) -> (r: bool)
    ensures
        r == radix_field(b0, b1),
{
    (b0 == 43 && hex_digit_exec(b1).is_some()) || (hex_digit_exec(b0).is_some()
        && hex_digit_exec(b1).is_some())
}

/// Reads `#RRGGBB`.
pub fn parse_hex(hex: &Option<String>) -> (r: Option<(u8, u8, u8)>)
    requires
        hex matches Some(s) ==> hex_readable(encode_utf8(s@)),
    ensures
        r == match hex {
            Some(s) => hex_color(encode_utf8(s@)),
            None => None,
        },
{
    match hex {
        None => None,
        Some(s) => {
            let b = s.as_str().as_bytes();
            if b.len() != 7 || b[0] != 35 {
                return None;
            }
            let r = match hex_pair_exec(b[1], b[2]) {
                Some(v) => v,
                None => return None,
            };
            let g = match hex_pair_exec(b[3], b[4]) {
                Some(v) => v,
                None => return None,
            };
            let bl = match hex_pair_exec(b[5], b[6]) {
                Some(v) => v,
                None => return None,
            };
            Some((r, g, bl))
        },
    }
}

// ── Items ──

/// One item of an edition (an article, a note, an advert, ...).
#[derive(Debug, Clone)]
pub struct EditionItem {
    pub title: Option<String>,
    pub slug: Option<String>,
    pub date: String,
    pub preview_text: String,
    /// Whole words (the API's count without its fraction).
    pub word_count: u32,
    /// Whole seconds (the API's estimate without its fraction).
    pub read_time_secs: u32,
    pub content: ItemContent,
}

/// What an item holds, by kind.
#[derive(Debug, Clone)]
pub enum ItemContent {
    Longform {
        title: String,
        header: Option<String>,
        header_color: DynColor,
        teaser: Option<String>,
        card_color: DynColor,
        title_color: DynColor,
        image_url: Option<String>,
        authors: Vec<String>,
        introduction_comment: Vec<ContentBlock>,
        body: Vec<ContentBlock>,
        comment: Vec<ContentBlock>,
    },
    Feature {
        title: String,
        header: Option<String>,
        header_color: DynColor,
        label: Option<String>,
        label_color: DynColor,
        image_url: Option<String>,
        authors: Vec<String>,
        country_codes: Vec<String>,
        introduction_comment: Vec<ContentBlock>,
        lead: Vec<ContentBlock>,
        comment: Vec<ContentBlock>,
    },
    DataVis {
        title: String,
        header: Option<String>,
        header_color: DynColor,
        label: Option<String>,
        label_color: DynColor,
        image_url: Option<String>,
        image_width: Option<i64>,
        image_height: Option<i64>,
        authors: Vec<String>,
        description: Vec<ContentBlock>,
    },
    CulturalRec {
        title: String,
        header: Option<String>,
        header_color: DynColor,
        image_url: Option<String>,
        authors: Vec<String>,
        description: Vec<ContentBlock>,
    },
    EditorsNote { authors: Vec<String>, body: Vec<ContentBlock> },
    CommunityNote {
        title: String,
        label: Option<String>,
        signature: Option<String>,
        authors: Vec<String>,
        description_top: Vec<ContentBlock>,
        description_bottom: Vec<ContentBlock>,
    },
    Advert { title: String },
}

/// A block of article body.
#[derive(Debug, Clone)]
pub enum ContentBlock {
    Paragraph(String),
    Heading(String),
    Image {
        url: Option<String>,
        width: Option<i64>,
        height: Option<i64>,
        caption: Option<String>,
        alt: Option<String>,
    },
}

/// The text of an optional string.
pub open spec fn opt_text(s: Option<String>) -> Option<Seq<char>> {
    match s {
        Some(t) => Some(t@),
        None => None,
    }
}

/// Borrows the text of an optional string.
pub fn opt_str(s: &Option<String>) -> (r: Option<&str>)
    ensures
        match r {
            Some(t) => s is Some && t@ == s.unwrap()@,
            None => s is None,
        },
{
    match s {
        Some(t) => Some(t.as_str()),
        None => None,
    }
}

impl ItemContent {
    /// The authors' names (none for an advert).
    pub open spec fn spec_authors(self) -> Seq<String> {
        match self {
            ItemContent::Longform { authors, .. } => authors@,
            ItemContent::Feature { authors, .. } => authors@,
            ItemContent::DataVis { authors, .. } => authors@,
            ItemContent::CulturalRec { authors, .. } => authors@,
            ItemContent::EditorsNote { authors, .. } => authors@,
            ItemContent::CommunityNote { authors, .. } => authors@,
            ItemContent::Advert { .. } => seq![],
        }
    }

    /// The header (the kinds that have one).
    pub open spec fn spec_header(self) -> Option<Seq<char>> {
        match self {
            ItemContent::Longform { header, .. } => opt_text(header),
            ItemContent::Feature { header, .. } => opt_text(header),
            ItemContent::DataVis { header, .. } => opt_text(header),
            ItemContent::CulturalRec { header, .. } => opt_text(header),
            _ => None,
        }
    }

    /// The header color (the kinds that have a header).
    pub open spec fn spec_header_color(self) -> Option<DynColor> {
        match self {
            ItemContent::Longform { header_color, .. } => Some(header_color),
            ItemContent::Feature { header_color, .. } => Some(header_color),
            ItemContent::DataVis { header_color, .. } => Some(header_color),
            ItemContent::CulturalRec { header_color, .. } => Some(header_color),
            _ => None,
        }
    }

    /// The image URL (the kinds that have an image).
    pub open spec fn spec_image_url(self) -> Option<Seq<char>> {
        match self {
            ItemContent::Longform { image_url, .. } => opt_text(image_url),
            ItemContent::Feature { image_url, .. } => opt_text(image_url),
            ItemContent::DataVis { image_url, .. } => opt_text(image_url),
            ItemContent::CulturalRec { image_url, .. } => opt_text(image_url),
            _ => None,
        }
    }

    /// The teaser of a longform.
    pub open spec fn spec_teaser(self) -> Option<Seq<char>> {
        match self {
            ItemContent::Longform { teaser, .. } => opt_text(teaser),
            _ => None,
        }
    }

    /// The label with its color, for features and data visualisations that have one.
    pub open spec fn spec_label_info(self) -> Option<(Seq<char>, DynColor)> {
        match self {
            ItemContent::Feature { label: Some(l), label_color, .. } => Some((l@, label_color)),
            ItemContent::DataVis { label: Some(l), label_color, .. } => Some((l@, label_color)),
            _ => None,
        }
    }

    /// The short kind name shown on cards.
    pub open spec fn spec_type_label(self) -> Seq<char> {
        match self {
            ItemContent::Longform { .. } => "LONGFORM"@,
            ItemContent::Feature { .. } => "FEATURE"@,
            ItemContent::DataVis { .. } => "DATA"@,
            ItemContent::CulturalRec { .. } => "CULTURE"@,
            ItemContent::EditorsNote { .. } => "NOTE"@,
            ItemContent::CommunityNote { .. } => "COMMUNITY"@,
            ItemContent::Advert { .. } => "AD"@,
        }
    }

    /// The short name of the item's kind, shown on cards.
    pub fn type_label(&self) -> (r: &'static str)
        ensures
            r@ == self.spec_type_label(),
    {
        match self {
            ItemContent::Longform { .. } => "LONGFORM",
            ItemContent::Feature { .. } => "FEATURE",
            ItemContent::DataVis { .. } => "DATA",
            ItemContent::CulturalRec { .. } => "CULTURE",
            ItemContent::EditorsNote { .. } => "NOTE",
            ItemContent::CommunityNote { .. } => "COMMUNITY",
            ItemContent::Advert { .. } => "AD",
        }
    }

    /// The authors' names (none for an advert).
    pub fn authors(&self) -> (r: &[String])
        ensures
            r@ == self.spec_authors(),
    {
        match self {
            ItemContent::Longform { authors, .. } => authors.as_slice(),
            ItemContent::Feature { authors, .. } => authors.as_slice(),
            ItemContent::DataVis { authors, .. } => authors.as_slice(),
            ItemContent::CulturalRec { authors, .. } => authors.as_slice(),
            ItemContent::EditorsNote { authors, .. } => authors.as_slice(),
            ItemContent::CommunityNote { authors, .. } => authors.as_slice(),
            ItemContent::Advert { .. } => &[],
        }
    }

    /// The header, for the kinds that have one.
    pub fn header(&self) -> (r: Option<&str>)
        ensures
            match r {
                Some(t) => self.spec_header() == Some(t@),
                None => self.spec_header() is None,
            },
    {
        match self {
            ItemContent::Longform { header, .. } => opt_str(header),
            ItemContent::Feature { header, .. } => opt_str(header),
            ItemContent::DataVis { header, .. } => opt_str(header),
            ItemContent::CulturalRec { header, .. } => opt_str(header),
            _ => None,
        }
    }

    /// The header color, for the kinds that have a header.
    pub fn header_color(&self) -> (r: Option<&DynColor>)
        ensures
            match r {
                Some(c) => self.spec_header_color() == Some(*c),
                None => self.spec_header_color() is None,
            },
    {
        match self {
            ItemContent::Longform { header_color, .. } => Some(header_color),
            ItemContent::Feature { header_color, .. } => Some(header_color),
            ItemContent::DataVis { header_color, .. } => Some(header_color),
            ItemContent::CulturalRec { header_color, .. } => Some(header_color),
            _ => None,
        }
    }

    /// The card color of a longform.
    pub fn card_color(&self) -> (r: Option<&DynColor>)
        ensures
            match r {
                Some(c) => self matches ItemContent::Longform { card_color, .. } && card_color
                    == *c,
                None => !(self is Longform),
            },
    {
        match self {
            ItemContent::Longform { card_color, .. } => Some(card_color),
            _ => None,
        }
    }

    /// The label and its color, for features and data visualisations that have one.
    pub fn label_info(&self) -> (r: Option<(&str, &DynColor)>)
        ensures
            match r {
                Some(x) => self.spec_label_info() == Some((x.0@, *x.1)),
                None => self.spec_label_info() is None,
            },
    {
        match self {
            ItemContent::Feature { label: Some(l), label_color, .. } => Some(
                (l.as_str(), label_color),
            ),
            ItemContent::DataVis { label: Some(l), label_color, .. } => Some(
                (l.as_str(), label_color),
            ),
            _ => None,
        }
    }

    /// The teaser of a longform.
    pub fn teaser(&self) -> (r: Option<&str>)
        ensures
            match r {
                Some(t) => self.spec_teaser() == Some(t@),
                None => self.spec_teaser() is None,
            },
    {
        match self {
            ItemContent::Longform { teaser, .. } => opt_str(teaser),
            _ => None,
        }
    }

    /// The image address, for the kinds that have an image.
    pub fn image_url(&self) -> (r: Option<&str>)
        ensures
            match r {
                Some(t) => self.spec_image_url() == Some(t@),
                None => self.spec_image_url() is None,
            },
    {
        match self {
            ItemContent::Longform { image_url, .. } => opt_str(image_url),
            ItemContent::Feature { image_url, .. } => opt_str(image_url),
            ItemContent::DataVis { image_url, .. } => opt_str(image_url),
            ItemContent::CulturalRec { image_url, .. } => opt_str(image_url),
            _ => None,
        }
    }

    /// Color to use for an image placeholder: the card color for longforms,
    /// the header color otherwise (light variant first).
    pub fn placeholder_color(&self) -> (r: Option<(u8, u8, u8)>)
        ensures
            r == match self {
                ItemContent::Longform { card_color, .. } => first_present(
                    card_color.light,
                    card_color.dark,
                ),
                _ => match self.spec_header_color() {
                    Some(c) => first_present(c.light, c.dark),
                    None => None,
                },
            },
    {
        match self {
            ItemContent::Longform { card_color, .. } => card_color.rgb(),
            _ => match self.header_color() {
                Some(c) => c.rgb(),
                None => None,
            },
        }
    }
}

// ── Homepage ──

/// A section of the homepage.
#[derive(Debug, Clone)]
pub enum HomepageSection {
    Hero { items: Vec<EditionItem> },
    ItemList {
        heading: Option<String>,
        subheading: Option<String>,
        header_color: DynColor,
        items: Vec<EditionItem>,
    },
    Highlight { item: EditionItem },
    Inline { item: EditionItem },
}

/// The homepage, as its sections in order.
#[derive(Debug, Clone)]
pub struct Homepage {
    pub sections: Vec<HomepageSection>,
}

impl HomepageSection {
    /// The items of the section, in order.
    pub open spec fn spec_items(self) -> Seq<EditionItem> {
        match self {
            HomepageSection::Hero { items } => items@,
            HomepageSection::ItemList { items, .. } => items@,
            HomepageSection::Highlight { item } => seq![item],
            HomepageSection::Inline { item } => seq![item],
        }
    }
}

/// The items of all sections, in order.
pub open spec fn all_items(sections: Seq<HomepageSection>) -> Seq<EditionItem>
    decreases sections.len(),
{
    if sections.len() == 0 {
        seq![]
    } else {
        all_items(sections.drop_last()) + sections.last().spec_items()
    }
}

// ── The API's answers, as plain values ──

/// A color of the API: optional `#RRGGBB` texts for the light and dark themes.
#[derive(Debug, Clone)]
pub struct HexColor {
    pub light: Option<String>,
    pub dark: Option<String>,
}

/// The text of an optional `#RRGGBB` can be read without slicing inside a character.
pub open spec fn opt_hex_readable(t: Option<String>) -> bool {
    match t {
        Some(s) => hex_readable(encode_utf8(s@)),
        None => true,
    }
}

/// The color an optional `#RRGGBB` text stands for.
pub open spec fn opt_hex_color(t: Option<String>) -> Option<(u8, u8, u8)> {
    match t {
        Some(s) => hex_color(encode_utf8(s@)),
        None => None,
    }
}

/// Whether `#RRGGBB` can be read from an optional text without slicing inside a character.
pub fn hex_text_readable(t: &Option<String>) -> (r: bool)
    ensures
        r == opt_hex_readable(*t),
{
    match t {
        None => true,
        Some(s) => {
            let b = s.as_str().as_bytes();
            if b.len() != 7 || b[0] != 35 {
                return true;
            }
            let cut3 = !(128u8 <= b[3] && b[3] <= 191u8);
            let first_ok = radix_field_exec(b[1], b[2]);
            let cut5 = !(128u8 <= b[5] && b[5] <= 191u8);
            cut3 && (!first_ok || cut5)
        },
    }
}

impl HexColor {
    pub open spec fn readable(self) -> bool {
        opt_hex_readable(self.light) && opt_hex_readable(self.dark)
    }

    pub open spec fn spec_to_dyn(self) -> DynColor {
        DynColor { light: opt_hex_color(self.light), dark: opt_hex_color(self.dark) }
    }

    /// Whether both texts can be read without slicing inside a character.
    pub fn is_readable(&self) -> (r: bool)
        ensures
            r == self.readable(),
    {
        hex_text_readable(&self.light) && hex_text_readable(&self.dark)
    }

    /// The color with both variants read from `#RRGGBB`.
    pub fn to_dyn(&self) -> (r: DynColor)
        requires
            self.readable(),
        ensures
            r == self.spec_to_dyn(),
    {
        DynColor { light: parse_hex(&self.light), dark: parse_hex(&self.dark) }
    }
}

/// An optional color of the API, readable where present.
pub open spec fn opt_readable(c: Option<HexColor>) -> bool {
    match c {
        Some(h) => h.readable(),
        None => true,
    }
}

/// An optional color, read; no color at all when absent.
pub open spec fn spec_opt_color(c: Option<HexColor>) -> DynColor {
    match c {
        Some(h) => h.spec_to_dyn(),
        None => DynColor { light: None, dark: None },
    }
}

/// The colors of an optional API color (none when it is absent).
pub fn opt_color(c: &Option<HexColor>) -> (r: DynColor)
    requires
        opt_readable(*c),
    ensures
        r == spec_opt_color(*c),
{
    match c {
        Some(h) => h.to_dyn(),
        None => DynColor { light: None, dark: None },
    }
}

/// The colors of an API color.
pub fn req_color(c: &HexColor) -> (r: DynColor)
    requires
        c.readable(),
    ensures
        r == c.spec_to_dyn(),
{
    c.to_dyn()
}

/// Whether an optional color can be read.
pub fn opt_is_readable(c: &Option<HexColor>) -> (r: bool)
    ensures
        r == opt_readable(*c),
{
    match c {
        Some(h) => h.is_readable(),
        None => true,
    }
}

/// A person's name as the API gives it.
#[derive(Debug, Clone)]
pub struct AuthorName {
    pub first_name: String,
    pub last_name: String,
}

impl AuthorName {
    /// "first last", without surrounding whitespace.
    pub open spec fn spec_full_name(self) -> Seq<char> {
        trim_ws(self.first_name@ + " "@ + self.last_name@)
    }

    /// The first and last name, separated by a space, trimmed of whitespace.
    pub fn full_name(&self) -> (r: String)
        ensures
            r@ == self.spec_full_name(),
    {
        let mut s = self.first_name.clone();
        s.append(" ");
        s.append(self.last_name.as_str());
        let chars = chars_of(s.as_str());
        string_of(&trim_chars(&chars))
    }
}

/// The full names of a list of people.
pub open spec fn names_of(authors: Seq<AuthorName>) -> Seq<Seq<char>> {
    authors.map_values(|a: AuthorName| a.spec_full_name())
}

/// The texts of a list of strings.
pub open spec fn strings_view(v: Seq<String>) -> Seq<Seq<char>> {
    v.map_values(|t: String| t@)
}

/// The full names of some authors, in order.
pub fn author_names(authors: &[AuthorName]) -> (r: Vec<String>)
    ensures
        strings_view(r@) == names_of(authors@),
{
    let mut out: Vec<String> = Vec::new();
    let mut i: usize = 0;
    while i < authors.len()
        invariant
            i <= authors.len(),
            strings_view(out@) == names_of(authors@.take(i as int)),
        decreases authors.len() - i,
    {
        let n = authors[i].full_name();
        assert(n@ == authors@[i as int].spec_full_name());
        let ghost before = out@;
        out.push(n);
        assert(strings_view(out@) =~= strings_view(before).push(n@));
        assert(authors@.take(i + 1) =~= authors@.take(i as int).push(authors@[i as int]));
        i += 1;
        assert(strings_view(out@) =~= names_of(authors@.take(i as int)));
    }
    assert(authors@.take(i as int) =~= authors@);
    out
}

/// An image of the API.
#[derive(Debug, Clone)]
pub struct RawImage {
    pub url: String,
    pub width: Option<i64>,
    pub height: Option<i64>,
    pub caption: Option<String>,
    pub alt: Option<String>,
}

/// A block of article body as the API gives it.
#[derive(Debug, Clone)]
pub enum RawBlock {
    Paragraph { text: String },
    Heading { text: String },
    Image { image: RawImage },
}

/// The block that an API block becomes.
pub open spec fn block_of(b: RawBlock) -> ContentBlock {
    match b {
        RawBlock::Paragraph { text } => ContentBlock::Paragraph(text),
        RawBlock::Heading { text } => ContentBlock::Heading(text),
        RawBlock::Image { image } => ContentBlock::Image {
            url: Some(image.url),
            width: image.width,
            height: image.height,
            caption: image.caption,
            alt: image.alt,
        },
    }
}

fn copy_opt(s: &Option<String>) -> (r: Option<String>)
    ensures
        r == *s,
{
    match s {
        Some(t) => Some(t.clone()),
        None => None,
    }
}

/// Converts content blocks, in order; an image always has its address.
pub fn convert_blocks(blocks: &[RawBlock]) -> (r: Vec<ContentBlock>)
    ensures
        r@ == blocks@.map_values(|b: RawBlock| block_of(b)),
{
    let mut out: Vec<ContentBlock> = Vec::new();
    let mut i: usize = 0;
    while i < blocks.len()
        invariant
            i <= blocks.len(),
            out@ == blocks@.take(i as int).map_values(|b: RawBlock| block_of(b)),
        decreases blocks.len() - i,
    {
        let b = match &blocks[i] {
            RawBlock::Paragraph { text } => ContentBlock::Paragraph(text.clone()),
            RawBlock::Heading { text } => ContentBlock::Heading(text.clone()),
            RawBlock::Image { image } => ContentBlock::Image {
                url: Some(image.url.clone()),
                width: image.width,
                height: image.height,
                caption: copy_opt(&image.caption),
                alt: copy_opt(&image.alt),
            },
        };
        out.push(b);
        i += 1;
        assert(out@ =~= blocks@.take(i as int).map_values(|b: RawBlock| block_of(b)));
    }
    assert(blocks@.take(i as int) =~= blocks@);
    out
}

/// The blocks of an optional list of API blocks (none when absent).
pub open spec fn opt_blocks(b: Option<Vec<RawBlock>>) -> Seq<ContentBlock> {
    match b {
        Some(v) => v@.map_values(|x: RawBlock| block_of(x)),
        None => seq![],
    }
}

/// Converts optional content blocks (none when they are absent).
pub fn convert_opt_blocks(b: &Option<Vec<RawBlock>>) -> (r: Vec<ContentBlock>)
    ensures
        r@ == opt_blocks(*b),
{
    match b {
        Some(v) => convert_blocks(v.as_slice()),
        None => Vec::new(),
    }
}

/// The summary of an item's content as the API lists it.
#[derive(Debug, Clone)]
pub enum SummaryContent {
    Longform {
        longform_title: String,
        header: Option<String>,
        teaser: Option<String>,
        header_color: Option<HexColor>,
        card_color: HexColor,
        title_color: Option<HexColor>,
        top_image_url: String,
        authors: Vec<AuthorName>,
    },
    Feature {
        feature_title: String,
        header: Option<String>,
        label: Option<String>,
        header_color: Option<HexColor>,
        label_color: Option<HexColor>,
        image_url: Option<String>,
        authors: Vec<AuthorName>,
        country_codes: Vec<String>,
    },
    DataVisualisation {
        dv_title: String,
        header: Option<String>,
        label: Option<String>,
        header_color: Option<HexColor>,
        label_color: Option<HexColor>,
        image_url: Option<String>,
        authors: Vec<AuthorName>,
    },
    CulturalRecommendation {
        cr_title: String,
        header: Option<String>,
        header_color: Option<HexColor>,
        cover_image_url: Option<String>,
        authors: Vec<AuthorName>,
    },
    EditorsNote { authors: Vec<AuthorName> },
    CommunityNote {
        cn_title: String,
        label: Option<String>,
        signature: Option<String>,
        authors: Vec<AuthorName>,
    },
    Advert { ad_title: String },
}

impl SummaryContent {
    /// All colors of the summary can be read.
    pub open spec fn readable(self) -> bool {
        match self {
            SummaryContent::Longform { header_color, card_color, title_color, .. } => opt_readable(
                header_color,
            ) && card_color.readable() && opt_readable(title_color),
            SummaryContent::Feature { header_color, label_color, .. } => opt_readable(
                header_color,
            ) && opt_readable(label_color),
            SummaryContent::DataVisualisation { header_color, label_color, .. } => opt_readable(
                header_color,
            ) && opt_readable(label_color),
            SummaryContent::CulturalRecommendation { header_color, .. } => opt_readable(
                header_color,
            ),
            _ => true,
        }
    }

    /// Whether all colors of the summary can be read.
    pub fn is_readable(&self) -> (r: bool)
        ensures
            r == self.readable(),
    {
        match self {
            SummaryContent::Longform { header_color, card_color, title_color, .. } => opt_is_readable(
                header_color,
            ) && card_color.is_readable() && opt_is_readable(title_color),
            SummaryContent::Feature { header_color, label_color, .. } => opt_is_readable(
                header_color,
            ) && opt_is_readable(label_color),
            SummaryContent::DataVisualisation { header_color, label_color, .. } => opt_is_readable(
                header_color,
            ) && opt_is_readable(label_color),
            SummaryContent::CulturalRecommendation { header_color, .. } => opt_is_readable(
                header_color,
            ),
            _ => true,
        }
    }

    /// `r` is what the summary becomes: its fields carried over, colors read,
    /// authors' full names, and no body blocks.
    pub open spec fn converts_to(self, r: ItemContent) -> bool {
        match self {
            SummaryContent::Longform {
                longform_title,
                header,
                teaser,
                header_color,
                card_color,
                title_color,
                top_image_url,
                authors,
            } => r matches ItemContent::Longform {
                title: t,
                header: h,
                header_color: hc,
                teaser: te,
                card_color: cc,
                title_color: tc,
                image_url: iu,
                authors: a,
                introduction_comment: ic,
                body: b,
                comment: cm,
            } && t == longform_title && h == header && te == teaser && hc == spec_opt_color(
                header_color,
            ) && cc == card_color.spec_to_dyn() && tc == spec_opt_color(title_color) && iu == Some(
                top_image_url,
            ) && strings_view(a@) == names_of(authors@) && ic@.len() == 0 && b@.len() == 0
                && cm@.len() == 0,
            SummaryContent::Feature {
                feature_title,
                header,
                label,
                header_color,
                label_color,
                image_url,
                authors,
                country_codes,
            } => r matches ItemContent::Feature {
                title: t,
                header: h,
                header_color: hc,
                label: l,
                label_color: lc,
                image_url: iu,
                authors: a,
                country_codes: cc,
                introduction_comment: ic,
                lead: ld,
                comment: cm,
            } && t == feature_title && h == header && l == label && hc == spec_opt_color(
                header_color,
            ) && lc == spec_opt_color(label_color) && iu == image_url && strings_view(a@)
                == names_of(authors@) && cc == country_codes && ic@.len() == 0 && ld@.len() == 0
                && cm@.len() == 0,
            SummaryContent::DataVisualisation {
                dv_title,
                header,
                label,
                header_color,
                label_color,
                image_url,
                authors,
            } => r matches ItemContent::DataVis {
                title: t,
                header: h,
                header_color: hc,
                label: l,
                label_color: lc,
                image_url: iu,
                image_width: iw,
                image_height: ih,
                authors: a,
                description: d,
            } && t == dv_title && h == header && l == label && hc == spec_opt_color(header_color)
                && lc == spec_opt_color(label_color) && iu == image_url && iw is None && ih is None
                && strings_view(a@) == names_of(authors@) && d@.len() == 0,
            SummaryContent::CulturalRecommendation {
                cr_title,
                header,
                header_color,
                cover_image_url,
                authors,
            } => r matches ItemContent::CulturalRec {
                title: t,
                header: h,
                header_color: hc,
                image_url: iu,
                authors: a,
                description: d,
            } && t == cr_title && h == header && hc == spec_opt_color(header_color) && iu
                == cover_image_url && strings_view(a@) == names_of(authors@) && d@.len() == 0,
            SummaryContent::EditorsNote { authors } => r matches ItemContent::EditorsNote {
                authors: a,
                body: b,
            } && strings_view(a@) == names_of(authors@) && b@.len() == 0,
            SummaryContent::CommunityNote { cn_title, label, signature, authors } => r matches ItemContent::CommunityNote {
                title: t,
                label: l,
                signature: sg,
                authors: a,
                description_top: dt,
                description_bottom: db,
            } && t == cn_title && l == label && sg == signature && strings_view(a@) == names_of(
                authors@,
            ) && dt@.len() == 0 && db@.len() == 0,
            SummaryContent::Advert { ad_title } => r == ItemContent::Advert { title: ad_title },
        }
    }
}

/// The content of a listed item, with no body blocks.
pub fn convert_summary_content(c: SummaryContent) -> (r: ItemContent)
    requires
        c.readable(),
    ensures
        c.converts_to(r),
{
    match c {
        SummaryContent::Longform {
            longform_title,
            header,
            teaser,
            header_color,
            card_color,
            title_color,
            top_image_url,
            authors,
        } => ItemContent::Longform {
            title: longform_title,
            header,
            teaser,
            header_color: opt_color(&header_color),
            card_color: req_color(&card_color),
            title_color: opt_color(&title_color),
            image_url: Some(top_image_url),
            authors: author_names(authors.as_slice()),
            introduction_comment: Vec::new(),
            body: Vec::new(),
            comment: Vec::new(),
        },
        SummaryContent::Feature {
            feature_title,
            header,
            label,
            header_color,
            label_color,
            image_url,
            authors,
            country_codes,
        } => ItemContent::Feature {
            title: feature_title,
            header,
            label,
            header_color: opt_color(&header_color),
            label_color: opt_color(&label_color),
            image_url,
            authors: author_names(authors.as_slice()),
            country_codes,
            introduction_comment: Vec::new(),
            lead: Vec::new(),
            comment: Vec::new(),
        },
        SummaryContent::DataVisualisation {
            dv_title,
            header,
            label,
            header_color,
            label_color,
            image_url,
            authors,
        } => ItemContent::DataVis {
            title: dv_title,
            header,
            label,
            header_color: opt_color(&header_color),
            label_color: opt_color(&label_color),
            image_url,
            image_width: None,
            image_height: None,
            authors: author_names(authors.as_slice()),
            description: Vec::new(),
        },
        SummaryContent::CulturalRecommendation {
            cr_title,
            header,
            header_color,
            cover_image_url,
            authors,
        } => ItemContent::CulturalRec {
            title: cr_title,
            header,
            header_color: opt_color(&header_color),
            image_url: cover_image_url,
            authors: author_names(authors.as_slice()),
            description: Vec::new(),
        },
        SummaryContent::EditorsNote { authors } => ItemContent::EditorsNote {
            authors: author_names(authors.as_slice()),
            body: Vec::new(),
        },
        SummaryContent::CommunityNote { cn_title, label, signature, authors } => ItemContent::CommunityNote {
            title: cn_title,
            label,
            signature,
            authors: author_names(authors.as_slice()),
            description_top: Vec::new(),
            description_bottom: Vec::new(),
        },
        SummaryContent::Advert { ad_title } => ItemContent::Advert { title: ad_title },
    }
}

/// The full content of an item as the API gives it for one article.
#[derive(Debug, Clone)]
pub enum FullContent {
    Longform {
        longform_title: String,
        header: Option<String>,
        teaser: Option<String>,
        header_color: Option<HexColor>,
        card_color: HexColor,
        title_color: Option<HexColor>,
        authors: Vec<AuthorName>,
        introduction_comment: Option<Vec<RawBlock>>,
        content: Vec<RawBlock>,
        comment: Option<Vec<RawBlock>>,
    },
    Feature {
        feature_title: String,
        header: Option<String>,
        label: Option<String>,
        header_color: Option<HexColor>,
        label_color: Option<HexColor>,
        authors: Vec<AuthorName>,
        country_codes: Vec<String>,
        introduction_comment: Option<Vec<RawBlock>>,
        lead: Option<Vec<RawBlock>>,
        comment: Option<Vec<RawBlock>>,
    },
    DataVisualisation {
        dv_title: String,
        header: Option<String>,
        label: Option<String>,
        header_color: Option<HexColor>,
        label_color: Option<HexColor>,
        image: Option<RawImage>,
        authors: Vec<AuthorName>,
        description: Option<Vec<RawBlock>>,
    },
    CulturalRecommendation {
        cr_title: String,
        header: Option<String>,
        header_color: Option<HexColor>,
        authors: Vec<AuthorName>,
        description: Option<Vec<RawBlock>>,
    },
    EditorsNote { authors: Vec<AuthorName>, content: Vec<RawBlock> },
    CommunityNote {
        cn_title: String,
        label: Option<String>,
        signature: Option<String>,
        authors: Vec<AuthorName>,
        description_top: Option<Vec<RawBlock>>,
        description_bottom: Option<Vec<RawBlock>>,
    },
    Advert { ad_title: String },
}

impl FullContent {
    /// All colors of the content can be read.
    pub open spec fn readable(self) -> bool {
        match self {
            FullContent::Longform { header_color, card_color, title_color, .. } => opt_readable(
                header_color,
            ) && card_color.readable() && opt_readable(title_color),
            FullContent::Feature { header_color, label_color, .. } => opt_readable(header_color)
                && opt_readable(label_color),
            FullContent::DataVisualisation { header_color, label_color, .. } => opt_readable(
                header_color,
            ) && opt_readable(label_color),
            FullContent::CulturalRecommendation { header_color, .. } => opt_readable(header_color),
            _ => true,
        }
    }

    /// Whether all colors of the content can be read.
    pub fn is_readable(&self) -> (r: bool)
        ensures
            r == self.readable(),
    {
        match self {
            FullContent::Longform { header_color, card_color, title_color, .. } => opt_is_readable(
                header_color,
            ) && card_color.is_readable() && opt_is_readable(title_color),
            FullContent::Feature { header_color, label_color, .. } => opt_is_readable(header_color)
                && opt_is_readable(label_color),
            FullContent::DataVisualisation { header_color, label_color, .. } => opt_is_readable(
                header_color,
            ) && opt_is_readable(label_color),
            FullContent::CulturalRecommendation { header_color, .. } => opt_is_readable(
                header_color,
            ),
            _ => true,
        }
    }

    /// `r` is what the content becomes: fields carried over, colors read,
    /// authors' full names, blocks converted (none where the API has none),
    /// and the image only where the content itself shows it (data visualisations).
    pub open spec fn converts_to(self, r: ItemContent) -> bool {
        match self {
            FullContent::Longform {
                longform_title,
                header,
                teaser,
                header_color,
                card_color,
                title_color,
                authors,
                introduction_comment,
                content,
                comment,
            } => r matches ItemContent::Longform {
                title: t,
                header: h,
                header_color: hc,
                teaser: te,
                card_color: cc,
                title_color: tc,
                image_url: iu,
                authors: a,
                introduction_comment: ic,
                body: b,
                comment: cm,
            } && t == longform_title && h == header && te == teaser && hc == spec_opt_color(
                header_color,
            ) && cc == card_color.spec_to_dyn() && tc == spec_opt_color(title_color) && iu is None
                && strings_view(a@) == names_of(authors@) && ic@ == opt_blocks(introduction_comment)
                && b@ == content@.map_values(|x: RawBlock| block_of(x)) && cm@ == opt_blocks(
                comment,
            ),
            FullContent::Feature {
                feature_title,
                header,
                label,
                header_color,
                label_color,
                authors,
                country_codes,
                introduction_comment,
                lead,
                comment,
            } => r matches ItemContent::Feature {
                title: t,
                header: h,
                header_color: hc,
                label: l,
                label_color: lc,
                image_url: iu,
                authors: a,
                country_codes: cc,
                introduction_comment: ic,
                lead: ld,
                comment: cm,
            } && t == feature_title && h == header && l == label && hc == spec_opt_color(
                header_color,
            ) && lc == spec_opt_color(label_color) && iu is None && strings_view(a@) == names_of(
                authors@,
            ) && cc == country_codes && ic@ == opt_blocks(introduction_comment) && ld@
                == opt_blocks(lead) && cm@ == opt_blocks(comment),
            FullContent::DataVisualisation {
                dv_title,
                header,
                label,
                header_color,
                label_color,
                image,
                authors,
                description,
            } => r matches ItemContent::DataVis {
                title: t,
                header: h,
                header_color: hc,
                label: l,
                label_color: lc,
                image_url: iu,
                image_width: iw,
                image_height: ih,
                authors: a,
                description: d,
            } && t == dv_title && h == header && l == label && hc == spec_opt_color(header_color)
                && lc == spec_opt_color(label_color) && iu == (match image {
                Some(i) => Some(i.url),
                None => None,
            }) && iw == (match image {
                Some(i) => i.width,
                None => None,
            }) && ih == (match image {
                Some(i) => i.height,
                None => None,
            }) && strings_view(a@) == names_of(authors@) && d@ == opt_blocks(description),
            FullContent::CulturalRecommendation {
                cr_title,
                header,
                header_color,
                authors,
                description,
            } => r matches ItemContent::CulturalRec {
                title: t,
                header: h,
                header_color: hc,
                image_url: iu,
                authors: a,
                description: d,
            } && t == cr_title && h == header && hc == spec_opt_color(header_color) && iu is None
                && strings_view(a@) == names_of(authors@) && d@ == opt_blocks(description),
            FullContent::EditorsNote { authors, content } => r matches ItemContent::EditorsNote {
                authors: a,
                body: b,
            } && strings_view(a@) == names_of(authors@) && b@ == content@.map_values(
                |x: RawBlock| block_of(x),
            ),
            FullContent::CommunityNote {
                cn_title,
                label,
                signature,
                authors,
                description_top,
                description_bottom,
            } => r matches ItemContent::CommunityNote {
                title: t,
                label: l,
                signature: sg,
                authors: a,
                description_top: dt,
                description_bottom: db,
            } && t == cn_title && l == label && sg == signature && strings_view(a@) == names_of(
                authors@,
            ) && dt@ == opt_blocks(description_top) && db@ == opt_blocks(description_bottom),
            FullContent::Advert { ad_title } => r == ItemContent::Advert { title: ad_title },
        }
    }
}

/// The content of an article, with its body blocks.
pub fn convert_full_content(c: FullContent) -> (r: ItemContent)
    requires
        c.readable(),
    ensures
        c.converts_to(r),
{
    match c {
        FullContent::Longform {
            longform_title,
            header,
            teaser,
            header_color,
            card_color,
            title_color,
            authors,
            introduction_comment,
            content,
            comment,
        } => ItemContent::Longform {
            title: longform_title,
            header,
            teaser,
            header_color: opt_color(&header_color),
            card_color: req_color(&card_color),
            title_color: opt_color(&title_color),
            image_url: None,
            authors: author_names(authors.as_slice()),
            introduction_comment: convert_opt_blocks(&introduction_comment),
            body: convert_blocks(content.as_slice()),
            comment: convert_opt_blocks(&comment),
        },
        FullContent::Feature {
            feature_title,
            header,
            label,
            header_color,
            label_color,
            authors,
            country_codes,
            introduction_comment,
            lead,
            comment,
        } => ItemContent::Feature {
            title: feature_title,
            header,
            label,
            header_color: opt_color(&header_color),
            label_color: opt_color(&label_color),
            image_url: None,
            authors: author_names(authors.as_slice()),
            country_codes,
            introduction_comment: convert_opt_blocks(&introduction_comment),
            lead: convert_opt_blocks(&lead),
            comment: convert_opt_blocks(&comment),
        },
        FullContent::DataVisualisation {
            dv_title,
            header,
            label,
            header_color,
            label_color,
            image,
            authors,
            description,
        } => {
            let (image_url, image_width, image_height) = match &image {
                Some(i) => (Some(i.url.clone()), i.width, i.height),
                None => (None, None, None),
            };
            ItemContent::DataVis {
                title: dv_title,
                header,
                label,
                header_color: opt_color(&header_color),
                label_color: opt_color(&label_color),
                image_url,
                image_width,
                image_height,
                authors: author_names(authors.as_slice()),
                description: convert_opt_blocks(&description),
            }
        },
        FullContent::CulturalRecommendation { cr_title, header, header_color, authors, description } => {
            ItemContent::CulturalRec {
                title: cr_title,
                header,
                header_color: opt_color(&header_color),
                image_url: None,
                authors: author_names(authors.as_slice()),
                description: convert_opt_blocks(&description),
            }
        },
        FullContent::EditorsNote { authors, content } => ItemContent::EditorsNote {
            authors: author_names(authors.as_slice()),
            body: convert_blocks(content.as_slice()),
        },
        FullContent::CommunityNote {
            cn_title,
            label,
            signature,
            authors,
            description_top,
            description_bottom,
        } => ItemContent::CommunityNote {
            title: cn_title,
            label,
            signature,
            authors: author_names(authors.as_slice()),
            description_top: convert_opt_blocks(&description_top),
            description_bottom: convert_opt_blocks(&description_bottom),
        },
        FullContent::Advert { ad_title } => ItemContent::Advert { title: ad_title },
    }
}

/// An item as the API lists it (in editions, on the homepage, in search results).
#[derive(Debug, Clone)]
pub struct SummaryItem {
    pub title: Option<String>,
    pub slug: Option<String>,
    pub date: String,
    pub preview_text: String,
    /// Whole words.
    pub word_count: u32,
    /// Whole seconds.
    pub read_time_secs: u32,
    pub content: SummaryContent,
}

/// An item as the API gives it for one article.
#[derive(Debug, Clone)]
pub struct FullItem {
    pub title: Option<String>,
    pub slug: Option<String>,
    pub date: String,
    pub preview_text: String,
    /// Whole words.
    pub word_count: u32,
    /// Whole seconds.
    pub read_time_secs: u32,
    pub content: FullContent,
}

/// `r` is what a listed item becomes.
pub open spec fn summary_item_to(i: SummaryItem, r: EditionItem) -> bool {
    &&& r.title == i.title
    &&& r.slug == i.slug
    &&& r.date == i.date
    &&& r.preview_text == i.preview_text
    &&& r.word_count == i.word_count
    &&& r.read_time_secs == i.read_time_secs
    &&& i.content.converts_to(r.content)
}

/// Every listed item in `v` has readable colors.
pub open spec fn summaries_readable(v: Seq<SummaryItem>) -> bool {
    forall|k: int| 0 <= k < v.len() ==> (#[trigger] v[k]).content.readable()
}

/// `r` holds what each listed item of `v` becomes.
pub open spec fn summaries_to(v: Seq<SummaryItem>, r: Seq<EditionItem>) -> bool {
    &&& r.len() == v.len()
    &&& forall|k: int| 0 <= k < v.len() ==> summary_item_to(#[trigger] v[k], r[k])
}

/// Converts a listed item.
pub fn convert_summary_item(item: SummaryItem) -> (r: EditionItem)
    requires
        item.content.readable(),
    ensures
        summary_item_to(item, r),
{
    EditionItem {
        title: item.title,
        slug: item.slug,
        date: item.date,
        preview_text: item.preview_text,
        word_count: item.word_count,
        read_time_secs: item.read_time_secs,
        content: convert_summary_content(item.content),
    }
}

/// Whether every listed item has readable colors.
pub fn summaries_are_readable(items: &[SummaryItem]) -> (r: bool)
    ensures
        r == summaries_readable(items@),
{
    let mut i: usize = 0;
    while i < items.len()
        invariant
            i <= items.len(),
            forall|k: int| 0 <= k < i ==> (#[trigger] items@[k]).content.readable(),
        decreases items.len() - i,
    {
        if !items[i].content.is_readable() {
            return false;
        }
        i += 1;
    }
    true
}

/// Converts listed items, in order.
pub fn convert_summary_items(items: Vec<SummaryItem>) -> (r: Vec<EditionItem>)
    requires
        summaries_readable(items@),
    ensures
        summaries_to(items@, r@),
{
    let ghost src = items@;
    let mut rest = items;
    let mut out: Vec<EditionItem> = Vec::new();
    let mut i: usize = 0;
    let total = rest.len();
    while rest.len() > 0
        invariant
            total == src.len(),
            summaries_readable(src),
            i + rest@.len() == src.len(),
            forall|j: int| 0 <= j < rest@.len() ==> rest@[j] == src[i + j],
            out@.len() == i,
            forall|k: int| 0 <= k < i ==> summary_item_to(src[k], #[trigger] out@[k]),
        decreases rest.len(),
    {
        let ghost r0 = rest@;
        let item = rest.remove(0);
        assert(item == src[i as int]);
        assert(forall|j: int| 0 <= j < rest@.len() ==> rest@[j] == r0[j + 1]);
        assert(src[i as int].content.readable());
        out.push(convert_summary_item(item));
        i += 1;
    }
    out
}

/// The item of an article.
pub fn convert_full_item(item: FullItem) -> (r: EditionItem)
    requires
        item.content.readable(),
    ensures
        r.title == item.title,
        r.slug == item.slug,
        r.date == item.date,
        r.preview_text == item.preview_text,
        r.word_count == item.word_count,
        r.read_time_secs == item.read_time_secs,
        item.content.converts_to(r.content),
{
    EditionItem {
        title: item.title,
        slug: item.slug,
        date: item.date,
        preview_text: item.preview_text,
        word_count: item.word_count,
        read_time_secs: item.read_time_secs,
        content: convert_full_content(item.content),
    }
}

/// The article that the API returned for a slug: "Article not found" when none.
pub fn article_result(item: Option<FullItem>) -> (r: Result<EditionItem, String>)
    requires
        item matches Some(i) ==> i.content.readable(),
    ensures
        match item {
            None => r matches Err(e) && e@ == "Article not found"@,
            Some(i) => r matches Ok(a) && a.title == i.title && a.slug == i.slug && a.date
                == i.date && a.preview_text == i.preview_text && a.word_count == i.word_count
                && a.read_time_secs == i.read_time_secs && i.content.converts_to(a.content),
        },
{
    match item {
        None => Err(String::from_str("Article not found")),
        Some(i) => Ok(convert_full_item(i)),
    }
}

/// An edition as the API lists it.
#[derive(Debug, Clone)]
pub struct RawEdition {
    pub title: String,
    pub date: String,
    pub items: Vec<SummaryItem>,
}

/// `r` is what an edition of the API becomes.
pub open spec fn edition_to(e: RawEdition, r: Edition) -> bool {
    r.title == e.title && r.date == e.date && summaries_to(e.items@, r.items@)
}

/// Every edition of `v` has readable colors.
pub open spec fn editions_readable(v: Seq<RawEdition>) -> bool {
    forall|k: int| 0 <= k < v.len() ==> summaries_readable((#[trigger] v[k]).items@)
}

/// Whether every edition has readable colors.
pub fn editions_are_readable(v: &[RawEdition]) -> (r: bool)
    ensures
        r == editions_readable(v@),
{
    let mut i: usize = 0;
    while i < v.len()
        invariant
            i <= v.len(),
            forall|k: int| 0 <= k < i ==> summaries_readable((#[trigger] v@[k]).items@),
        decreases v.len() - i,
    {
        if !summaries_are_readable(v[i].items.as_slice()) {
            return false;
        }
        i += 1;
    }
    true
}

/// Converts an edition with its items.
pub fn convert_edition(e: RawEdition) -> (r: Edition)
    requires
        summaries_readable(e.items@),
    ensures
        edition_to(e, r),
{
    Edition { title: e.title, date: e.date, items: convert_summary_items(e.items) }
}

/// The list of editions, in the API's order.
pub fn editions_list(nodes: Vec<RawEdition>) -> (r: Vec<Edition>)
    requires
        editions_readable(nodes@),
    ensures
        r@.len() == nodes@.len(),
        forall|k: int| 0 <= k < nodes@.len() ==> edition_to(nodes@[k], #[trigger] r@[k]),
{
    let ghost src = nodes@;
    let mut rest = nodes;
    let mut out: Vec<Edition> = Vec::new();
    let mut i: usize = 0;
    let total = rest.len();
    while rest.len() > 0
        invariant
            total == src.len(),
            editions_readable(src),
            i + rest@.len() == src.len(),
            forall|j: int| 0 <= j < rest@.len() ==> rest@[j] == src[i + j],
            out@.len() == i,
            forall|k: int| 0 <= k < i ==> edition_to(src[k], #[trigger] out@[k]),
        decreases rest.len(),
    {
        let ghost r0 = rest@;
        let e = rest.remove(0);
        assert(e == src[i as int]);
        assert(forall|j: int| 0 <= j < rest@.len() ==> rest@[j] == r0[j + 1]);
        assert(summaries_readable(src[i as int].items@));
        out.push(convert_edition(e));
        i += 1;
    }
    out
}

/// The latest edition: the first the API lists; "No editions found" when none.
pub fn latest_edition(nodes: Vec<RawEdition>) -> (r: Result<Edition, String>)
    requires
        nodes@.len() > 0 ==> summaries_readable(nodes@[0].items@),
    ensures
        nodes@.len() == 0 ==> (r matches Err(e) && e@ == "No editions found"@),
        nodes@.len() > 0 ==> (r matches Ok(ed) && edition_to(nodes@[0], ed)),
{
    let mut n = nodes;
    if n.len() == 0 {
        return Err(String::from_str("No editions found"));
    }
    let first = n.remove(0);
    Ok(convert_edition(first))
}

/// A homepage section as the API gives it; kinds the reader does not show are `Other`.
#[derive(Debug, Clone)]
pub enum RawSection {
    Hero { items: Vec<SummaryItem> },
    ItemList {
        heading: String,
        subheading: Option<String>,
        header_color: HexColor,
        edition_items: Vec<SummaryItem>,
    },
    Highlight { edition_item: SummaryItem },
    Inline { edition_item: SummaryItem },
    Other,
}

impl RawSection {
    /// All colors of the section can be read.
    pub open spec fn readable(self) -> bool {
        match self {
            RawSection::Hero { items } => summaries_readable(items@),
            RawSection::ItemList { header_color, edition_items, .. } => header_color.readable()
                && summaries_readable(edition_items@),
            RawSection::Highlight { edition_item } => edition_item.content.readable(),
            RawSection::Inline { edition_item } => edition_item.content.readable(),
            RawSection::Other => true,
        }
    }

    /// Whether all colors of the section can be read.
    pub fn is_readable(&self) -> (r: bool)
        ensures
            r == self.readable(),
    {
        match self {
            RawSection::Hero { items } => summaries_are_readable(items.as_slice()),
            RawSection::ItemList { header_color, edition_items, .. } => header_color.is_readable()
                && summaries_are_readable(edition_items.as_slice()),
            RawSection::Highlight { edition_item } => edition_item.content.is_readable(),
            RawSection::Inline { edition_item } => edition_item.content.is_readable(),
            RawSection::Other => true,
        }
    }

    /// `r` is what a shown section becomes: an empty heading is dropped, and so
    /// is an empty subheading.
    pub open spec fn converts_to(self, r: HomepageSection) -> bool {
        match self {
            RawSection::Hero { items } => r matches HomepageSection::Hero { items: out }
                && summaries_to(items@, out@),
            RawSection::ItemList { heading, subheading, header_color, edition_items } => r matches HomepageSection::ItemList {
                heading: h,
                subheading: sh,
                header_color: hc,
                items: out,
            } && h == (if heading@.len() == 0 {
                None
            } else {
                Some(heading)
            }) && sh == (match subheading {
                Some(t) => if t@.len() == 0 {
                    None
                } else {
                    Some(t)
                },
                None => None,
            }) && hc == header_color.spec_to_dyn() && summaries_to(edition_items@, out@),
            RawSection::Highlight { edition_item } => r matches HomepageSection::Highlight {
                item,
            } && summary_item_to(edition_item, item),
            RawSection::Inline { edition_item } => r matches HomepageSection::Inline { item }
                && summary_item_to(edition_item, item),
            RawSection::Other => false,
        }
    }
}

/// The sections of the API that the reader shows, in order.
pub open spec fn shown_sections(v: Seq<RawSection>) -> Seq<RawSection>
    decreases v.len(),
{
    if v.len() == 0 {
        seq![]
    } else if v.last() is Other {
        shown_sections(v.drop_last())
    } else {
        shown_sections(v.drop_last()).push(v.last())
    }
}

/// Converts one section; `None` for kinds that are not shown.
pub fn convert_section(s: RawSection) -> (r: Option<HomepageSection>)
    requires
        s.readable(),
    ensures
        match r {
            Some(h) => !(s is Other) && s.converts_to(h),
            None => s is Other,
        },
{
    match s {
        RawSection::Hero { items } => Some(HomepageSection::Hero { items: convert_summary_items(items) }),
        RawSection::ItemList { heading, subheading, header_color, edition_items } => {
            let heading = if heading.as_str().unicode_len() == 0 {
                None
            } else {
                Some(heading)
            };
            let subheading = match subheading {
                Some(t) => if t.as_str().unicode_len() == 0 {
                    None
                } else {
                    Some(t)
                },
                None => None,
            };
            Some(
                HomepageSection::ItemList {
                    heading,
                    subheading,
                    header_color: req_color(&header_color),
                    items: convert_summary_items(edition_items),
                },
            )
        },
        RawSection::Highlight { edition_item } => Some(
            HomepageSection::Highlight { item: convert_summary_item(edition_item) },
        ),
        RawSection::Inline { edition_item } => Some(
            HomepageSection::Inline { item: convert_summary_item(edition_item) },
        ),
        RawSection::Other => None,
    }
}

/// Every section of `v` has readable colors.
pub open spec fn sections_readable(v: Seq<RawSection>) -> bool {
    forall|k: int| 0 <= k < v.len() ==> (#[trigger] v[k]).readable()
}

/// Whether every section has readable colors.
pub fn sections_are_readable(v: &[RawSection]) -> (r: bool)
    ensures
        r == sections_readable(v@),
{
    let mut i: usize = 0;
    while i < v.len()
        invariant
            i <= v.len(),
            forall|k: int| 0 <= k < i ==> (#[trigger] v@[k]).readable(),
        decreases v.len() - i,
    {
        if !v[i].is_readable() {
            return false;
        }
        i += 1;
    }
    true
}

/// The homepage from the API's page: "Homepage not found" when there is no
/// page; sections of other kinds are left out.
pub fn homepage_result(page: Option<Vec<RawSection>>) -> (r: Result<Homepage, String>)
    requires
        page matches Some(v) ==> sections_readable(v@),
    ensures
        match page {
            None => r matches Err(e) && e@ == "Homepage not found"@,
            Some(v) => r matches Ok(hp) && hp.sections@.len() == shown_sections(v@).len() && (
            forall|k: int|
                0 <= k < hp.sections@.len() ==> shown_sections(v@)[k].converts_to(
                    #[trigger] hp.sections@[k],
                )),
        },
{
    let v = match page {
        None => return Err(String::from_str("Homepage not found")),
        Some(v) => v,
    };
    let ghost src = v@;
    let mut rest = v;
    let mut out: Vec<HomepageSection> = Vec::new();
    let mut i: usize = 0;
    assert(src.take(0) =~= Seq::<RawSection>::empty());
    let total = rest.len();
    while rest.len() > 0
        invariant
            total == src.len(),
            sections_readable(src),
            i + rest@.len() == src.len(),
            forall|j: int| 0 <= j < rest@.len() ==> rest@[j] == src[i + j],
            out@.len() == shown_sections(src.take(i as int)).len(),
            forall|k: int|
                0 <= k < out@.len() ==> shown_sections(src.take(i as int))[k].converts_to(
                    #[trigger] out@[k],
                ),
        decreases rest.len(),
    {
        let ghost r0 = rest@;
        let sec = rest.remove(0);
        assert(sec == src[i as int]);
        assert(forall|j: int| 0 <= j < rest@.len() ==> rest@[j] == r0[j + 1]);
        assert(src.take(i + 1).drop_last() =~= src.take(i as int));
        assert(src[i as int].readable());
        match convert_section(sec) {
            Some(h) => {
                out.push(h);
            },
            None => {},
        }
        i += 1;
    }
    assert(src.take(i as int) =~= src);
    Ok(Homepage { sections: out })
}

/// The outcome of a query: the errors the API reported, joined with ", ",
/// when there are any; otherwise the data, or "No data returned" without it.
pub fn gql_outcome<T>(errors: Option<Vec<String>>, data: Option<T>) -> (r: Result<T, String>)
    ensures
        match errors {
            Some(es) if es@.len() > 0 => r matches Err(e) && e@ == crate::app::join(
                strings_view(es@),
                ", "@,
            ),
            _ => match data {
                Some(d) => r == Ok::<T, String>(d),
                None => r matches Err(e) && e@ == "No data returned"@,
            },
        },
{
    match errors {
        Some(es) => {
            if es.len() > 0 {
                let mut msg = String::new();
                crate::app::append_joined(&mut msg, es.as_slice(), ", ");
                assert(crate::app::texts(es@) =~= strings_view(es@));
                return Err(msg);
            }
        },
        None => {},
    }
    match data {
        Some(d) => Ok(d),
        None => Err(String::from_str("No data returned")),
    }
}

// ── Laws ──

/// The color (and the accent color) is the light variant when there is one,
/// and the dark variant otherwise.
pub proof fn law_accent_is_rgb(c: DynColor)
    ensures
        (c.light is Some ==> first_present(c.light, c.dark) == c.light),
        (c.light is None ==> first_present(c.light, c.dark) == c.dark),
{
}

/// The lower-case hex digit of a value below 16.
pub open spec fn hex_char(v: u8) -> u8 {
    if v < 10 {
        (48 + v) as u8
    } else {
        (87 + v) as u8
    }
}

/// `#rrggbb` for a color, in lower case.
pub open spec fn hex_text(c: (u8, u8, u8)) -> Seq<u8> {
    seq![
        35u8,
        hex_char(c.0 / 16),
        hex_char(c.0 % 16),
        hex_char(c.1 / 16),
        hex_char(c.1 % 16),
        hex_char(c.2 / 16),
        hex_char(c.2 % 16),
    ]
}

proof fn lemma_hex_pair_of(v: u8)
    ensures
        hex_pair(hex_char(v / 16), hex_char(v % 16)) == Some(v),
{
    assert(hex_digit(hex_char(v / 16)) == Some(v / 16));
    assert(hex_digit(hex_char(v % 16)) == Some(v % 16));
}

/// Reading `#rrggbb` written for a color gives the color back.
pub proof fn law_hex_roundtrip(c: (u8, u8, u8))
    ensures
        hex_color(hex_text(c)) == Some(c),
        hex_readable(hex_text(c)),
{
    lemma_hex_pair_of(c.0);
    lemma_hex_pair_of(c.1);
    lemma_hex_pair_of(c.2);
}

/// Texts that are not seven bytes long, or that do not start with `#`, are no color.
pub proof fn law_hex_needs_seven_bytes(b: Seq<u8>)
    requires
        b.len() != 7 || b[0] != 35,
    ensures
        hex_color(b) is None,
{
}

/// A text is a color exactly when it is `#` followed by six hexadecimal
/// digits (either case).
pub proof fn law_hex_is_six_digits(b: Seq<u8>)
    ensures
        hex_color(b) is Some <==> (b.len() == 7 && b[0] == 35 && forall|i: int|
            1 <= i < 7 ==> #[trigger] hex_digit(b[i]) is Some),
{
    if b.len() == 7 && b[0] == 35 {
        if hex_color(b) is Some {
            assert forall|i: int| 1 <= i < 7 implies #[trigger] hex_digit(b[i]) is Some by {
                assert(hex_pair(b[1], b[2]) is Some && hex_pair(b[3], b[4]) is Some && hex_pair(
                    b[5],
                    b[6],
                ) is Some);
            }
        } else {
            if forall|i: int| 1 <= i < 7 ==> #[trigger] hex_digit(b[i]) is Some {
                assert(hex_digit(b[1]) is Some && hex_digit(b[2]) is Some);
                assert(hex_digit(b[3]) is Some && hex_digit(b[4]) is Some);
                assert(hex_digit(b[5]) is Some && hex_digit(b[6]) is Some);
            }
        }
    }
}

} // verus!
