//! Where everything goes.
//!
//! Pure arithmetic: it takes the window size, the DPI, the active section and the scroll
//! offset, and gives rectangles. Nothing here touches a device, and the painter and the
//! hit tester both read its result, so they never disagree.
//!
//! The height of a row depends on how many lines its hint wraps to, which needs font
//! metrics. The caller passes a function that measures; everything else is arithmetic.

use vstd::prelude::*;

use crate::config::Config;
use crate::settings::geom::{clamp, clamped, floor_div, larger, max, near, rect, smaller, Rect};
use crate::settings::schema::Card as CardSpec;
use crate::settings::schema::{
    all_sections, sections, CardModel, Field, Kind, Section, SectionModel,
};
use crate::text::same_text;

verus! {

/// Font size to line height, in thousandths, for every wrapped run of text on the page.
/// The layout reserves lines of this height and the painter draws them at that pitch.
pub const LINE_SPACING: i64 = 1_350;

/// How far from the origin an edge of the window may be, in ticks.
pub const WINDOW_REACH: i64 = 0x4_0000_0000_0000;

/// How high a wrapped text may be, in ticks.
pub const TEXT_REACH: i64 = 0x1_0000_0000_0000;

/// The DPI to which the design is scaled.
#[derive(Clone, Copy, Debug, PartialEq, Eq, Structural)]
pub struct Metrics {
    pub dpi: u32,
}

impl Metrics {
    /// A design length, in thousandths of a unit, in ticks.
    pub open spec fn at(self, thousandths: int) -> int {
        thousandths * self.dpi
    }

    pub fn new(dpi: u32) -> (r: Metrics)
        ensures
            r.dpi == dpi,
    {
        Metrics { dpi }
    }

    /// Scale a design length, in thousandths of a unit.
    pub fn px(&self, thousandths: i64) -> (r: i64)
        requires
            -1_000_000 <= thousandths <= 1_000_000,
        ensures
            r == self.at(thousandths as int),
            thousandths >= 0 ==> 0 <= r <= thousandths * 0xffff_ffff,
    {
        let dpi: i64 = self.dpi as i64;
        assert(-1_000_000 * 0xffff_ffff <= thousandths * dpi <= 1_000_000 * 0xffff_ffff)
            by (nonlinear_arith)
            requires
                -1_000_000 <= thousandths <= 1_000_000,
                0 <= dpi <= 0xffff_ffff,
        ;
        assert(thousandths >= 0 ==> 0 <= thousandths * dpi <= thousandths * 0xffff_ffff)
            by (nonlinear_arith)
            requires
                0 <= dpi <= 0xffff_ffff,
        ;
        thousandths * dpi
    }

    pub fn sidebar_width(&self) -> (r: i64)
        ensures
            r == self.at(176_000),
    {
        self.px(176_000)
    }

    pub fn titlebar_height(&self) -> (r: i64)
        ensures
            r == self.at(38_000),
    {
        self.px(38_000)
    }

    pub fn content_padding(&self) -> (r: i64)
        ensures
            r == self.at(22_000),
    {
        self.px(22_000)
    }

    pub fn nav_item_height(&self) -> (r: i64)
        ensures
            r == self.at(32_000),
    {
        self.px(32_000)
    }

    pub fn nav_item_gap(&self) -> (r: i64)
        ensures
            r == self.at(2_000),
    {
        self.px(2_000)
    }

    /// The gap before the about entry, which sits at the bottom of the sidebar.
    pub fn nav_spacer_height(&self) -> (r: i64)
        ensures
            r == self.at(10_000),
    {
        self.px(10_000)
    }

    pub fn section_title_size(&self) -> (r: i64)
        ensures
            r == self.at(19_000),
    {
        self.px(19_000)
    }

    pub fn section_title_gap(&self) -> (r: i64)
        ensures
            r == self.at(8_000),
    {
        self.px(8_000)
    }

    pub fn description_size(&self) -> (r: i64)
        ensures
            r == self.at(11_500),
    {
        self.px(11_500)
    }

    pub fn description_gap(&self) -> (r: i64)
        ensures
            r == self.at(16_000),
    {
        self.px(16_000)
    }

    pub fn card_gap(&self) -> (r: i64)
        ensures
            r == self.at(14_000),
    {
        self.px(14_000)
    }

    pub fn card_radius(&self) -> (r: i64)
        ensures
            r == self.at(8_000),
    {
        self.px(8_000)
    }

    pub fn card_padding(&self) -> (r: i64)
        ensures
            r == self.at(14_000),
    {
        self.px(14_000)
    }

    pub fn card_title_size(&self) -> (r: i64)
        ensures
            r == self.at(12_000),
    {
        self.px(12_000)
    }

    pub fn card_title_gap(&self) -> (r: i64)
        ensures
            r == self.at(6_000),
    {
        self.px(6_000)
    }

    pub fn row_padding_v(&self) -> (r: i64)
        ensures
            r == self.at(9_000),
    {
        self.px(9_000)
    }

    pub fn row_padding_h(&self) -> (r: i64)
        ensures
            r == self.at(12_000),
    {
        self.px(12_000)
    }

    pub fn label_size(&self) -> (r: i64)
        ensures
            r == self.at(12_500),
    {
        self.px(12_500)
    }

    pub fn hint_size(&self) -> (r: i64)
        ensures
            r == self.at(11_000),
    {
        self.px(11_000)
    }

    pub fn hint_gap(&self) -> (r: i64)
        ensures
            r == self.at(3_000),
    {
        self.px(3_000)
    }

    /// The least height of a row, so rows without hints match rows with a short one.
    pub fn row_min_height(&self) -> (r: i64)
        ensures
            r == self.at(38_000),
    {
        self.px(38_000)
    }

    /// The width of the control column. Fixed, so labels and controls line up down the whole
    /// page.
    pub fn control_width(&self) -> (r: i64)
        ensures
            r == self.at(226_000),
    {
        self.px(226_000)
    }

    pub fn control_gap(&self) -> (r: i64)
        ensures
            r == self.at(16_000),
    {
        self.px(16_000)
    }

    pub fn switch_width(&self) -> (r: i64)
        ensures
            r == self.at(42_000),
    {
        self.px(42_000)
    }

    pub fn switch_height(&self) -> (r: i64)
        ensures
            r == self.at(23_000),
    {
        self.px(23_000)
    }

    pub fn control_height(&self) -> (r: i64)
        ensures
            r == self.at(28_000),
    {
        self.px(28_000)
    }

    pub fn button_height(&self) -> (r: i64)
        ensures
            r == self.at(28_000),
    {
        self.px(28_000)
    }

    pub fn button_gap(&self) -> (r: i64)
        ensures
            r == self.at(8_000),
    {
        self.px(8_000)
    }

    pub fn scrollbar_width(&self) -> (r: i64)
        ensures
            r == self.at(8_000),
    {
        self.px(8_000)
    }

    /// The room for a slider's numeric read-out.
    pub fn slider_readout_width(&self) -> (r: i64)
        ensures
            r == self.at(56_000),
    {
        self.px(56_000)
    }

    /// The width of a colour swatch.
    pub fn color_swatch_width(&self) -> (r: i64)
        ensures
            r == self.at(46_000),
    {
        self.px(46_000)
    }

    /// The width of an action button.
    pub fn button_width(&self) -> (r: i64)
        ensures
            r == self.at(112_000),
    {
        self.px(112_000)
    }

    /// The height of one entry in an open dropdown.
    pub fn dropdown_row_height(&self) -> (r: i64)
        ensures
            r == self.at(26_000),
    {
        self.px(26_000)
    }

    /// The room that the minimise and close buttons take.
    pub fn window_buttons_width(&self) -> (r: i64)
        ensures
            r == self.at(58_000),
    {
        self.px(58_000)
    }
    /// The height of one line of a label.
    pub fn label_line(&self) -> (r: i64)
        ensures
            r == self.at(16_875),
    {
        self.label_size() * LINE_SPACING / 1_000
    }
}

/// How far below the origin a page may reach, in ticks.
pub const PAGE_REACH: i64 = 0x0600_0000_0000_0000;

/// How far above it, or left of it.
pub const PAGE_MARGIN: i64 = 0x0080_0000_0000_0000;

/// Is a rectangle within the reach of a page that is not scrolled?
pub open spec fn settled(r: Rect) -> bool {
    &&& -PAGE_MARGIN <= r.left <= PAGE_REACH
    &&& -PAGE_MARGIN <= r.top <= PAGE_REACH
    &&& -PAGE_MARGIN <= r.right <= PAGE_REACH
    &&& -PAGE_MARGIN <= r.bottom <= PAGE_REACH
}

/// One row, positioned.
#[derive(Clone, Copy, Debug)]
pub struct Row {
    /// The table entry that this came from, so that the painter knows the control.
    pub field: Field,
    /// The whole row, with its padding.
    pub rect: Rect,
    /// Where the label goes. Empty for status and action rows.
    pub label: Rect,
    /// Where the hint goes. Empty when the field has none.
    pub hint: Rect,
    /// Where the control goes.
    pub control: Rect,
    /// Draw a divider above this row? Not for the first row of a card.
    pub divider: bool,
}

impl Row {
    /// The row, moved down.
    pub open spec fn moved(self, dy: int) -> Row {
        Row {
            field: self.field,
            rect: self.rect.moved(dy),
            label: self.label.moved(dy),
            hint: self.hint.moved(dy),
            control: self.control.moved(dy),
            divider: self.divider,
        }
    }

    /// Is every rectangle within the reach of a page?
    pub open spec fn wf(self) -> bool {
        settled(self.rect) && settled(self.label) && settled(self.hint) && settled(self.control)
    }

    /// Is any of this row inside `viewport`?
    pub fn visible(&self, viewport: &Rect) -> (r: bool)
        ensures
            r == !self.rect.clip(*viewport).void(),
    {
        !self.rect.clipped_to(viewport).is_empty()
    }

    fn shifted(&self, dy: i64) -> (r: Row)
        requires
            self.wf(),
            near(dy as int),
        ensures
            r == self.moved(dy as int),
    {
        Row {
            field: self.field,
            rect: self.rect.shifted(dy),
            label: self.label.shifted(dy),
            hint: self.hint.shifted(dy),
            control: self.control.shifted(dy),
            divider: self.divider,
        }
    }
}

/// A card, positioned.
pub struct Card {
    pub heading: Option<&'static str>,
    pub rect: Rect,
    pub title: Rect,
    pub rows: Vec<Row>,
}

/// A [`Card`], as a value.
#[verifier::ext_equal]
pub ghost struct CardLayout {
    pub heading: Option<&'static str>,
    pub rect: Rect,
    pub title: Rect,
    pub rows: Seq<Row>,
}

impl View for Card {
    type V = CardLayout;

    open spec fn view(&self) -> CardLayout {
        CardLayout {
            heading: self.heading,
            rect: self.rect,
            title: self.title,
            rows: self.rows@,
        }
    }
}

impl CardLayout {
    pub open spec fn moved(self, dy: int) -> CardLayout {
        CardLayout {
            heading: self.heading,
            rect: self.rect.moved(dy),
            title: self.title.moved(dy),
            rows: self.rows.map_values(|row: Row| row.moved(dy)),
        }
    }

    pub open spec fn wf(self) -> bool {
        &&& settled(self.rect)
        &&& settled(self.title)
        &&& forall|i: int| 0 <= i < self.rows.len() ==> (#[trigger] self.rows[i]).wf()
    }
}

/// The scrollable page.
pub struct Content {
    pub cards: Vec<Card>,
    /// The height of the whole page, which sizes the scrollbar.
    pub height: i64,
    /// Where the heading of the page goes.
    pub title: Rect,
    /// Where the section's own explanation goes, between the heading and the first card.
    /// Empty when the section has none.
    pub description: Rect,
}

/// A [`Content`], as a value.
#[verifier::ext_equal]
pub ghost struct Page {
    pub cards: Seq<CardLayout>,
    pub height: int,
    pub title: Rect,
    pub description: Rect,
}

impl View for Content {
    type V = Page;

    open spec fn view(&self) -> Page {
        Page {
            cards: self.cards@.map_values(|card: Card| card@),
            height: self.height as int,
            title: self.title,
            description: self.description,
        }
    }
}

impl Page {
    /// The page, moved down.
    pub open spec fn moved(self, dy: int) -> Page {
        Page {
            cards: self.cards.map_values(|card: CardLayout| card.moved(dy)),
            height: self.height,
            title: self.title.moved(dy),
            description: self.description.moved(dy),
        }
    }

    /// Every row, from the top of the page to its bottom.
    pub open spec fn rows(self) -> Seq<Row> {
        rows_of(self.cards)
    }

    pub open spec fn wf(self) -> bool {
        &&& settled(self.title)
        &&& settled(self.description)
        &&& forall|i: int| 0 <= i < self.cards.len() ==> (#[trigger] self.cards[i]).wf()
    }
}

/// Every row of some cards, in order.
pub open spec fn rows_of(cards: Seq<CardLayout>) -> Seq<Row>
    decreases cards.len(),
{
    if cards.len() == 0 {
        Seq::empty()
    } else {
        rows_of(cards.drop_last()) + cards.last().rows
    }
}

/// What the sidebar shows of a section.
#[derive(Clone, Copy, Debug)]
pub struct Heading {
    pub id: &'static str,
    pub title: &'static str,
    pub description: &'static str,
    pub is_about: bool,
}

/// One sidebar entry.
#[derive(Clone, Copy, Debug)]
pub struct NavItem {
    pub section: Heading,
    pub rect: Rect,
    pub active: bool,
}

/// The full layout.
pub struct Layout {
    pub nav: Vec<NavItem>,
    /// The gap that pushes the about entry to the bottom of the sidebar.
    pub nav_spacer: Rect,
    pub sidebar: Rect,
    pub titlebar: Rect,
    /// The part of the window that the page scrolls inside.
    pub viewport: Rect,
    pub content: Content,
    pub scrollbar: Rect,
    pub scroll_max: i64,
    /// The scroll offset that this layout was built with, after clamping. A wheel may ask
    /// for an offset past the end, and the caller needs to know what it actually got.
    pub scroll: i64,
}

/// The control of a kind of row, as tall as it wants to be.
pub open spec fn control_tall(kind: Kind, m: Metrics) -> int {
    match kind {
        Kind::Switch => m.at(23_000),
        _ => m.at(28_000),
    }
}

/// Does a row of this kind put its control across the whole width? There is no value to
/// the right of a label to describe.
pub open spec fn spans(kind: Kind) -> bool {
    kind is Status || kind is Action
}

/// How tall a row is whose hint, with the gap above it, takes `hint_height`.
pub open spec fn row_tall(kind: Kind, m: Metrics, hint_height: int) -> int {
    larger(
        larger(m.at(16_875) + hint_height, control_tall(kind, m)) + 2 * m.at(9_000),
        m.at(38_000),
    )
}

/// The columns of a page.
#[verifier::ext_equal]
pub ghost struct Columns {
    pub left: int,
    pub right: int,
    pub label_width: int,
}

/// The label column ends where the control column begins. Measured against the inner
/// width, that is what is left after the row padding on both sides.
pub open spec fn columns(viewport: Rect, m: Metrics) -> Columns {
    let left = viewport.left + m.at(22_000);
    let right = viewport.right - m.at(22_000);
    let inner = larger(right - left - 2 * m.at(12_000), 0);
    Columns { left, right, label_width: larger(inner - m.at(226_000) - m.at(16_000), 0) }
}

/// A row whose top is at `top` and whose hint, with the gap above it, takes
/// `hint_height`.
pub open spec fn row_at(
    field: Field,
    m: Metrics,
    c: Columns,
    top: int,
    hint_height: int,
    first: bool,
) -> Row {
    let bottom = top + row_tall(field.kind, m, hint_height);
    let inner_top = top + m.at(9_000);
    let label = if spans(field.kind) {
        rect(0, 0, 0, 0)
    } else {
        rect(
            c.left + m.at(12_000),
            inner_top,
            c.left + m.at(12_000) + c.label_width,
            inner_top + m.at(16_875),
        )
    };
    Row {
        field,
        rect: rect(c.left, top, c.right, bottom),
        label,
        hint: if hint_height > 0 {
            rect(
                label.left as int,
                label.top + m.at(16_875) + m.at(3_000),
                label.right as int,
                label.top + m.at(16_875) + hint_height,
            )
        } else {
            rect(0, 0, 0, 0)
        },
        control: if spans(field.kind) {
            rect(c.left + m.at(12_000), inner_top, c.right - m.at(12_000), bottom - m.at(9_000))
        } else {
            rect(
                c.right - m.at(12_000) - m.at(226_000),
                inner_top,
                c.right - m.at(12_000),
                inner_top + control_tall(field.kind, m),
            )
        },
        divider: !first,
    }
}

/// Does `measure` give `h` for `text` in `width`?
pub open spec fn measured<F: Fn(&str, i64) -> i64>(measure: F, text: &str, width: int, h: int) -> bool {
    0 <= h <= TEXT_REACH && call_ensures(measure, (text, width as i64), h as i64)
}

/// Is this the row of `field` at `top`?
pub open spec fn is_row<F: Fn(&str, i64) -> i64>(
    row: Row,
    field: Field,
    m: Metrics,
    c: Columns,
    top: int,
    measure: F,
    first: bool,
) -> bool {
    match field.hint {
        Some(hint) => exists|h: int| #[trigger]
            measured(measure, hint, c.label_width, h) && row == row_at(
                field,
                m,
                c,
                top,
                h + m.at(3_000),
                first,
            ),
        None => row == row_at(field, m, c, top, 0, first),
    }
}

/// The fields that a configuration shows.
pub open spec fn shown_fields(fields: Seq<Field>, config: Config) -> Seq<Field>
    decreases fields.len(),
{
    if fields.len() == 0 {
        Seq::empty()
    } else if fields.last().shown(config) {
        shown_fields(fields.drop_last(), config).push(fields.last())
    } else {
        shown_fields(fields.drop_last(), config)
    }
}

/// Where the row after the first `i` rows begins.
pub open spec fn next_top(rows: Seq<Row>, i: int, top: int) -> int {
    if i <= 0 {
        top
    } else {
        rows[i - 1].rect.bottom as int
    }
}

/// Is row `i` the one of field `i`, directly below the row before it?
pub open spec fn row_fits<F: Fn(&str, i64) -> i64>(
    rows: Seq<Row>,
    fields: Seq<Field>,
    i: int,
    m: Metrics,
    c: Columns,
    top: int,
    measure: F,
) -> bool {
    is_row(rows[i], fields[i], m, c, next_top(rows, i, top), measure, i == 0)
}

/// Are these the rows of `fields`, one directly below the other from `top` on?
pub open spec fn is_stack<F: Fn(&str, i64) -> i64>(
    rows: Seq<Row>,
    fields: Seq<Field>,
    m: Metrics,
    c: Columns,
    top: int,
    measure: F,
) -> bool {
    &&& rows.len() == fields.len()
    &&& forall|i: int|
        0 <= i < rows.len() ==> #[trigger] row_fits(rows, fields, i, m, c, top, measure)
}

/// Where the rows of a card begin.
pub open spec fn card_inner(spec: CardModel, m: Metrics, top: int) -> int {
    top + m.at(14_000) + (if spec.title is Some {
        m.at(12_000) + m.at(6_000)
    } else {
        0
    })
}

/// Is this the card of `spec` at `top`?
pub open spec fn is_card<F: Fn(&str, i64) -> i64>(
    card: CardLayout,
    spec: CardModel,
    config: Config,
    m: Metrics,
    c: Columns,
    top: int,
    measure: F,
) -> bool {
    let fields = shown_fields(spec.fields, config);
    let inner = card_inner(spec, m, top);
    &&& is_stack(card.rows, fields, m, c, inner, measure)
    &&& card.heading == spec.title
    &&& card.rect == rect(
        c.left,
        top,
        c.right,
        next_top(card.rows, card.rows.len() as int, inner) + m.at(14_000),
    )
    &&& card.title == rect(
        c.left + m.at(14_000),
        top + m.at(10_500),
        c.right - m.at(14_000),
        top + m.at(10_500) + m.at(12_000),
    )
}

/// Where the card after the first `i` cards begins.
pub open spec fn card_top(cards: Seq<CardLayout>, i: int, m: Metrics, first: int) -> int {
    if i <= 0 {
        first
    } else {
        cards[i - 1].rect.bottom + m.at(14_000)
    }
}

/// Is card `i` the one of the section's card `i`, one gap below the card before it?
pub open spec fn card_fits<F: Fn(&str, i64) -> i64>(
    cards: Seq<CardLayout>,
    section: SectionModel,
    i: int,
    config: Config,
    m: Metrics,
    c: Columns,
    first: int,
    measure: F,
) -> bool {
    is_card(cards[i], section.cards[i], config, m, c, card_top(cards, i, m, first), measure)
}

/// Where the heading of a page begins: a little below the top, not on it.
pub open spec fn title_top(viewport: Rect, m: Metrics) -> int {
    viewport.top + m.at(8_000)
}

/// Where the explanation of a section begins.
pub open spec fn description_top(viewport: Rect, m: Metrics) -> int {
    title_top(viewport, m) + m.at(19_000) + m.at(8_000)
}

/// Where the first card begins.
pub open spec fn first_card_top(page: Page, viewport: Rect, m: Metrics, section: SectionModel) -> int {
    (if section.description@.len() == 0 {
        description_top(viewport, m)
    } else {
        page.description.bottom as int
    }) + m.at(16_000)
}

/// Is this the page of a section, not scrolled?
pub open spec fn is_page<F: Fn(&str, i64) -> i64>(
    page: Page,
    viewport: Rect,
    m: Metrics,
    section: SectionModel,
    config: Config,
    measure: F,
) -> bool {
    let c = columns(viewport, m);
    let first = first_card_top(page, viewport, m, section);
    &&& page.title == rect(
        c.left,
        title_top(viewport, m),
        c.right,
        title_top(viewport, m) + m.at(19_000),
    )
    &&& if section.description@.len() == 0 {
        page.description == rect(0, 0, 0, 0)
    } else {
        exists|h: int| #[trigger]
            measured(measure, section.description, c.right - c.left, h) && page.description == rect(
                c.left,
                description_top(viewport, m),
                c.right,
                description_top(viewport, m) + h,
            )
    }
    &&& page.cards.len() == section.cards.len()
    &&& forall|i: int|
        0 <= i < page.cards.len() ==> #[trigger] card_fits(
            page.cards,
            section,
            i,
            config,
            m,
            c,
            first,
            measure,
        )
    &&& page.height == larger(
        card_top(page.cards, page.cards.len() as int, m, first) - viewport.top,
        0,
    )
}

/// How tall some cards may get: each of their rows, and each card's own padding and title,
/// takes no more than [`ROW_REACH`].
pub open spec fn cards_reach(cards: Seq<CardModel>) -> int
    decreases cards.len(),
{
    if cards.len() == 0 {
        0
    } else {
        cards_reach(cards.drop_last()) + (cards.last().fields.len() + 1) * ROW_REACH
    }
}

/// Can the page of a section be measured, however tall its texts are?
pub open spec fn small(section: SectionModel) -> bool {
    cards_reach(section.cards) <= 0x0480_0000_0000_0000
}

/// The first cards of a section reach no further than all of them.
proof fn lemma_first_cards(cards: Seq<CardModel>, k: int)
    requires
        0 <= k <= cards.len(),
    ensures
        0 <= cards_reach(cards.take(k)) <= cards_reach(cards),
        k < cards.len() ==> cards_reach(cards.take(k + 1)) == cards_reach(cards.take(k)) + (
        cards[k].fields.len() + 1) * ROW_REACH,
    decreases cards.len(),
{
    if k < cards.len() {
        let before = cards.drop_last();
        assert(cards.take(k) =~= before.take(k));
        assert(cards.take(k + 1).drop_last() =~= cards.take(k));
        lemma_first_cards(before, k);
        if k + 1 == cards.len() {
            assert(before.take(k) =~= before);
        }
    } else {
        assert(cards.take(k) =~= cards);
        if k > 0 {
            let before = cards.drop_last();
            lemma_first_cards(before, k - 1);
            assert(before.take(k - 1) =~= before);
        }
    }
}

/// Every section of the settings is.
pub proof fn every_section_is_small()
    ensures
        forall|i: int| 0 <= i < all_sections().len() ==> small(#[trigger] all_sections()[i]),
{
    assert forall|i: int| 0 <= i < all_sections().len() implies small(
        #[trigger] all_sections()[i],
    ) by {
        let cards = all_sections()[i].cards;
        assert(cards.len() <= 8);
        assert(forall|k: int| 0 <= k < cards.len() ==> (#[trigger] cards[k]).fields.len() <= 16);
        lemma_few_cards(cards);
        assert(cards_reach(cards) <= 8 * (17 * ROW_REACH));
    }
}

proof fn lemma_few_cards(cards: Seq<CardModel>)
    requires
        forall|k: int| 0 <= k < cards.len() ==> (#[trigger] cards[k]).fields.len() <= 16,
    ensures
        cards_reach(cards) <= cards.len() * (17 * ROW_REACH),
    decreases cards.len(),
{
    if cards.len() > 0 {
        let before = cards.drop_last();
        assert forall|k: int| 0 <= k < before.len() implies (#[trigger] before[k]).fields.len()
            <= 16 by {
            assert(before[k] == cards[k]);
        }
        lemma_few_cards(before);
        assert(cards.last() == cards[cards.len() - 1]);
    }
}

/// May `measure` be asked about anything, and does it always answer with a height within
/// reach?
pub open spec fn measures<F: Fn(&str, i64) -> i64>(measure: F) -> bool {
    &&& forall|text: &str, width: i64| call_requires(measure, (text, width))
    &&& forall|text: &str, width: i64, h: i64|
        #[trigger] call_ensures(measure, (text, width), h) ==> 0 <= h <= TEXT_REACH
}

/// Is every edge of the viewport within the reach of the window and its chrome?
spec fn view_near(viewport: Rect) -> bool {
    let reach = 4 * WINDOW_REACH;
    &&& -reach <= viewport.left <= reach
    &&& -reach <= viewport.top <= reach
    &&& -reach <= viewport.right <= reach
    &&& -reach <= viewport.bottom <= reach
}

/// How tall the control of `kind` wants to be.
fn control_height_for(kind: &Kind, metrics: &Metrics) -> (r: i64)
    ensures
        r == control_tall(*kind, *metrics),
        0 <= r <= 28_000 * 0xffff_ffff,
{
    match kind {
        Kind::Switch => metrics.px(23_000),
        Kind::Action(_) => metrics.px(28_000),
        _ => metrics.px(28_000),
    }
}

/// How tall a row may get, in ticks.
pub const ROW_REACH: i64 = 0x4_0000_0000_0000;

#[verifier::rlimit(40)]
#[verifier::spinoff_prover]
fn layout_row<F: Fn(&str, i64) -> i64>(
    field: Field,
    metrics: &Metrics,
    left: i64,
    right: i64,
    top: i64,
    label_width: i64,
    measure_hint: &F,
    is_first: bool,
) -> (row: Row)
    requires
        measures(*measure_hint),
        -8 * WINDOW_REACH <= left <= 8 * WINDOW_REACH,
        -8 * WINDOW_REACH <= right <= 8 * WINDOW_REACH,
        0 <= label_width <= 16 * WINDOW_REACH,
        -0x0040_0000_0000_0000 <= top <= 0x0580_0000_0000_0000,
    ensures
        is_row(
            row,
            field,
            *metrics,
            (Columns { left: left as int, right: right as int, label_width: label_width as int }),
            top as int,
            *measure_hint,
            is_first,
        ),
        row.wf(),
        top <= row.rect.bottom <= top + ROW_REACH,
{
    let ghost m = *metrics;
    let ghost c = Columns {
        left: left as int,
        right: right as int,
        label_width: label_width as int,
    };
    let padding_h: i64 = metrics.px(12_000);
    let padding_v: i64 = metrics.px(9_000);
    // The text is drawn centred in its rectangle, so the rectangle has to be one line
    // tall: the whole row would drop the label onto the hint below.
    let label_line: i64 = metrics.px(16_875);
    let hint_gap: i64 = metrics.px(3_000);

    let hint_height: i64 = match field.hint {
        Some(hint) => {
            let h: i64 = measure_hint(hint, label_width);
            assert(measured(*measure_hint, hint, c.label_width, h as int));
            h + hint_gap
        },
        None => 0,
    };
    assert(match field.hint {
        Some(hint) => measured(*measure_hint, hint, c.label_width, hint_height - m.at(3_000)),
        None => hint_height == 0,
    });
    let text_height: i64 = label_line + hint_height;
    let control_height: i64 = control_height_for(&field.kind, metrics);
    let content_height: i64 = max(text_height, control_height);
    let row_height: i64 = max(content_height + padding_v * 2, metrics.px(38_000));
    let rect: Rect = Rect::new(left, top, right, top + row_height);

    let spanning: bool = match field.kind {
        Kind::Status(_) => true,
        Kind::Action(_) => true,
        _ => false,
    };
    let label: Rect = if spanning {
        Rect::nowhere()
    } else {
        Rect::new(
            left + padding_h,
            rect.top + padding_v,
            left + padding_h + label_width,
            rect.top + padding_v + label_line,
        )
    };
    let control: Rect = if spanning {
        Rect::new(
            left + padding_h,
            rect.top + padding_v,
            right - padding_h,
            rect.bottom - padding_v,
        )
    } else {
        Rect::new(
            right - padding_h - metrics.px(226_000),
            rect.top + padding_v,
            right - padding_h,
            rect.top + padding_v + control_height,
        )
    };
    // A hint sits directly under the label.
    let hint: Rect = if hint_height > 0 {
        Rect::new(
            label.left,
            label.top + label_line + hint_gap,
            label.right,
            label.top + label_line + hint_height,
        )
    } else {
        Rect::nowhere()
    };
    let row: Row = Row { field, rect, label, hint, control, divider: !is_first };
    assert(row == row_at(field, m, c, top as int, hint_height as int, is_first));
    assert(match field.hint {
        Some(hint) => measured(*measure_hint, hint, c.label_width, hint_height - m.at(3_000))
            && hint_height == hint_height - m.at(3_000) + m.at(3_000),
        None => true,
    });
    row
}

fn is_shown(field: &Field, config: &Config) -> (r: bool)
    ensures
        r == field.shown(*config),
{
    match field.when {
        Some(rule) => rule.holds(config),
        None => true,
    }
}

/// A row below a stack makes a stack.
proof fn lemma_stack_grows<F: Fn(&str, i64) -> i64>(
    rows: Seq<Row>,
    fields: Seq<Field>,
    row: Row,
    field: Field,
    m: Metrics,
    c: Columns,
    top: int,
    measure: F,
)
    requires
        is_stack(rows, fields, m, c, top, measure),
        is_row(
            row,
            field,
            m,
            c,
            next_top(rows, rows.len() as int, top),
            measure,
            rows.len() == 0,
        ),
    ensures
        is_stack(rows.push(row), fields.push(field), m, c, top, measure),
{
    let more = rows.push(row);
    let named = fields.push(field);
    assert forall|i: int| 0 <= i < more.len() implies #[trigger] row_fits(
        more,
        named,
        i,
        m,
        c,
        top,
        measure,
    ) by {
        if i < rows.len() {
            assert(row_fits(rows, fields, i, m, c, top, measure));
            assert(more[i] == rows[i]);
            assert(named[i] == fields[i]);
            assert(next_top(more, i, top) == next_top(rows, i, top));
        } else {
            assert(next_top(more, i, top) == next_top(rows, i, top));
        }
    }
}

fn layout_card<F: Fn(&str, i64) -> i64>(
    spec: &CardSpec,
    config: &Config,
    metrics: &Metrics,
    left: i64,
    right: i64,
    top: i64,
    label_width: i64,
    measure_hint: &F,
) -> (card: Card)
    requires
        measures(*measure_hint),
        -8 * WINDOW_REACH <= left <= 8 * WINDOW_REACH,
        -8 * WINDOW_REACH <= right <= 8 * WINDOW_REACH,
        0 <= label_width <= 16 * WINDOW_REACH,
        -0x0040_0000_0000_0000 <= top,
        top + spec.fields@.len() * ROW_REACH <= 0x0500_0000_0000_0000,
    ensures
        is_card(
            card@,
            spec@,
            *config,
            *metrics,
            (Columns { left: left as int, right: right as int, label_width: label_width as int }),
            top as int,
            *measure_hint,
        ),
        card@.wf(),
        top <= card.rect.bottom,
        card.rect.bottom + metrics.at(14_000) <= top + (spec.fields@.len() + 1) * ROW_REACH,
{
    let ghost m = *metrics;
    let ghost c = Columns {
        left: left as int,
        right: right as int,
        label_width: label_width as int,
    };
    let card_padding: i64 = metrics.card_padding();
    assert(0 <= card_padding <= 14_000 * 0xffff_ffff);
    let mut inner: i64 = top + card_padding;
    if spec.title.is_some() {
        inner = inner + metrics.px(12_000) + metrics.px(6_000);
    }
    let ghost inner_top = inner as int;
    assert(inner_top == card_inner(spec@, m, top as int));

    let mut rows: Vec<Row> = Vec::new();
    let ghost fields = spec.fields@;
    let mut f: usize = 0;
    assert(fields.take(0) =~= Seq::<Field>::empty());
    while f < spec.fields.len()
        invariant
            measures(*measure_hint),
            -8 * WINDOW_REACH <= left <= 8 * WINDOW_REACH,
            -8 * WINDOW_REACH <= right <= 8 * WINDOW_REACH,
            0 <= label_width <= 16 * WINDOW_REACH,
            -0x0040_0000_0000_0000 <= top,
            top + fields.len() * ROW_REACH <= 0x0500_0000_0000_0000,
            m == *metrics,
            c == (Columns {
                left: left as int,
                right: right as int,
                label_width: label_width as int,
            }),
            fields == spec.fields@,
            0 <= f <= fields.len(),
            rows@.len() <= f,
            top <= inner_top <= top + 32_000 * 0xffff_ffff,
            inner_top <= inner <= inner_top + rows@.len() * ROW_REACH,
            inner == next_top(rows@, rows@.len() as int, inner_top),
            is_stack(
                rows@,
                shown_fields(fields.take(f as int), *config),
                m,
                c,
                inner_top,
                *measure_hint,
            ),
            forall|i: int| 0 <= i < rows@.len() ==> (#[trigger] rows@[i]).wf(),
        decreases fields.len() - f,
    {
        let field: Field = spec.fields[f];
        let ghost before = shown_fields(fields.take(f as int), *config);
        proof {
            let next = fields.take(f + 1);
            assert(next.drop_last() =~= fields.take(f as int));
            assert(next.last() == field);
        }
        if is_shown(&field, config) {
            let row: Row = layout_row(
                field,
                metrics,
                left,
                right,
                inner,
                label_width,
                measure_hint,
                rows.len() == 0,
            );
            proof {
                lemma_stack_grows(rows@, before, row, field, m, c, inner_top, *measure_hint);
            }
            inner = row.rect.bottom;
            rows.push(row);
        }
        f = f + 1;
    }
    assert(fields.take(f as int) =~= fields);

    let card_bottom: i64 = inner + card_padding;
    let title_top: i64 = top + metrics.px(10_500);
    let title: Rect = Rect::new(
        left + card_padding,
        title_top,
        right - card_padding,
        title_top + metrics.px(12_000),
    );
    let card: Card = Card {
        heading: spec.title,
        rect: Rect::new(left, top, right, card_bottom),
        title,
        rows,
    };
    card
}

/// A card below others makes more cards of the page.
proof fn lemma_cards_grow<F: Fn(&str, i64) -> i64>(
    cards: Seq<CardLayout>,
    section: SectionModel,
    card: CardLayout,
    config: Config,
    m: Metrics,
    c: Columns,
    first: int,
    measure: F,
)
    requires
        cards.len() < section.cards.len(),
        forall|i: int|
            0 <= i < cards.len() ==> #[trigger] card_fits(
                cards,
                section,
                i,
                config,
                m,
                c,
                first,
                measure,
            ),
        is_card(
            card,
            section.cards[cards.len() as int],
            config,
            m,
            c,
            card_top(cards, cards.len() as int, m, first),
            measure,
        ),
    ensures
        forall|i: int|
            0 <= i < cards.push(card).len() ==> #[trigger] card_fits(
                cards.push(card),
                section,
                i,
                config,
                m,
                c,
                first,
                measure,
            ),
{
    let more = cards.push(card);
    assert forall|i: int| 0 <= i < more.len() implies #[trigger] card_fits(
        more,
        section,
        i,
        config,
        m,
        c,
        first,
        measure,
    ) by {
        if i < cards.len() {
            assert(card_fits(cards, section, i, config, m, c, first, measure));
            assert(more[i] == cards[i]);
        }
        assert(card_top(more, i, m, first) == card_top(cards, i, m, first));
    }
}

/// The page itself, not scrolled.
fn layout_content<F: Fn(&str, i64) -> i64>(
    viewport: &Rect,
    metrics: &Metrics,
    section: &Section,
    config: &Config,
    measure_hint: &F,
) -> (content: Content)
    requires
        measures(*measure_hint),
        view_near(*viewport),
        small(section@),
    ensures
        is_page(content@, *viewport, *metrics, section@, *config, *measure_hint),
        content@.wf(),
        0 <= content.height <= 0x0500_0000_0000_0000,
        forall|i: int| 0 <= i < content.cards@.len() ==> (#[trigger] content.cards@[i])@.wf(),
        forall|i: int|
            0 <= i < content.cards@.len() ==> (#[trigger] content.cards@[i]).rect.bottom
                <= viewport.top + 0x0500_0000_0000_0000,
{
    let ghost m = *metrics;
    let ghost c = columns(*viewport, m);
    let padding: i64 = metrics.px(22_000);
    let left: i64 = viewport.left + padding;
    let right: i64 = viewport.right - padding;
    let text_width: i64 = right - left;
    let inner_width: i64 = max(text_width - 2 * metrics.px(12_000), 0);
    let label_width: i64 = max(inner_width - metrics.px(226_000) - metrics.px(16_000), 0);
    assert(c == (Columns {
        left: left as int,
        right: right as int,
        label_width: label_width as int,
    }));
    let title_top: i64 = viewport.top + metrics.px(8_000);
    let title: Rect = Rect::new(left, title_top, right, title_top + metrics.px(19_000));
    let mut cursor: i64 = title.bottom + metrics.px(8_000);
    assert(cursor == description_top(*viewport, m));
    let mut description: Rect = Rect::nowhere();
    if !section.description.is_empty() {
        // Measured with the same wrap that the painter draws with, so the reserved height
        // is the height that the text actually takes.
        let height: i64 = measure_hint(section.description, text_width);
        assert(measured(*measure_hint, section.description, c.right - c.left, height as int));
        description = Rect::new(left, cursor, right, cursor + height);
        cursor = description.bottom;
    }
    cursor = cursor + metrics.px(16_000);
    let ghost first = cursor as int;

    let mut cards: Vec<Card> = Vec::new();
    let ghost models = Seq::<CardLayout>::empty();
    let mut k: usize = 0;
    assert(section@.cards.take(0) =~= Seq::<CardModel>::empty());
    while k < section.cards.len()
        invariant
            measures(*measure_hint),
            view_near(*viewport),
            small(section@),
            m == *metrics,
            c == (Columns {
                left: left as int,
                right: right as int,
                label_width: label_width as int,
            }),
            -8 * WINDOW_REACH <= left <= 8 * WINDOW_REACH,
            -8 * WINDOW_REACH <= right <= 8 * WINDOW_REACH,
            0 <= label_width <= 16 * WINDOW_REACH,
            viewport.top <= first <= viewport.top + WINDOW_REACH,
            section@.cards.len() == section.cards@.len(),
            0 <= k <= section.cards@.len(),
            models == cards@.map_values(|card: Card| card@),
            cards@.len() == k,
            first <= cursor <= first + cards_reach(section@.cards.take(k as int)),
            cursor == card_top(models, k as int, m, first),
            forall|i: int|
                0 <= i < models.len() ==> #[trigger] card_fits(
                    models,
                    section@,
                    i,
                    *config,
                    m,
                    c,
                    first,
                    *measure_hint,
                ),
            forall|i: int| 0 <= i < cards@.len() ==> (#[trigger] cards@[i])@.wf(),
            forall|i: int|
                0 <= i < cards@.len() ==> (#[trigger] cards@[i]).rect.bottom <= cursor,
        decreases section.cards@.len() - k,
    {
        assert(section@.cards[k as int] == section.cards@[k as int]@);
        proof {
            lemma_first_cards(section@.cards, k as int);
            lemma_first_cards(section@.cards, k + 1);
        }
        let card: Card = layout_card(
            &section.cards[k],
            config,
            metrics,
            left,
            right,
            cursor,
            label_width,
            measure_hint,
        );
        proof {
            lemma_cards_grow(
                models,
                section@,
                card@,
                *config,
                m,
                c,
                first,
                *measure_hint,
            );
        }
        cursor = card.rect.bottom + metrics.px(14_000);
        let ghost model = card@;
        let ghost so_far = cards@;
        cards.push(card);
        proof {
            models = models.push(model);
            assert(models =~= cards@.map_values(|card: Card| card@));
            assert forall|i: int| 0 <= i < cards@.len() implies (#[trigger] cards@[i])@.wf() by {
                if i < so_far.len() {
                    assert(cards@[i] == so_far[i]);
                }
            }
            assert forall|i: int| 0 <= i < cards@.len() implies (#[trigger] cards@[i]).rect.bottom
                <= cursor by {
                if i < so_far.len() {
                    assert(cards@[i] == so_far[i]);
                }
            }
        }
        k = k + 1;
    }
    assert(section@.cards.take(k as int) =~= section@.cards);
    let height: i64 = max(cursor - viewport.top, 0);
    let content: Content = Content { cards, height, title, description };
    assert(content@.cards == models);
    content
}

/// The page, moved by the scroll offset.
fn scrolled(content: Content, scroll: i64) -> (r: Content)
    requires
        content@.wf(),
        forall|i: int| 0 <= i < content.cards@.len() ==> (#[trigger] content.cards@[i])@.wf(),
        0 <= scroll <= PAGE_REACH,
    ensures
        r@ == content@.moved(-scroll),
{
    let mut cards: Vec<Card> = Vec::new();
    let mut k: usize = 0;
    while k < content.cards.len()
        invariant
            0 <= scroll <= PAGE_REACH,
            forall|i: int| 0 <= i < content.cards@.len() ==> (#[trigger] content.cards@[i])@.wf(),
            0 <= k <= content.cards@.len(),
            cards@.len() == k,
            forall|i: int|
                0 <= i < k ==> (#[trigger] cards@[i])@ == content.cards@[i]@.moved(-scroll),
        decreases content.cards@.len() - k,
    {
        let ghost from = content.cards@[k as int];
        assert(from@.wf());
        let mut rows: Vec<Row> = Vec::new();
        let mut j: usize = 0;
        while j < content.cards[k].rows.len()
            invariant
                0 <= scroll <= PAGE_REACH,
                k < content.cards@.len(),
                from == content.cards@[k as int],
                from@.wf(),
                0 <= j <= from.rows@.len(),
                rows@.len() == j,
                forall|i: int| 0 <= i < j ==> #[trigger] rows@[i] == from.rows@[i].moved(-scroll),
            decreases from.rows@.len() - j,
        {
            assert(from@.rows[j as int].wf());
            let row: Row = content.cards[k].rows[j].shifted(-scroll);
            rows.push(row);
            j = j + 1;
        }
        let card: Card = Card {
            heading: content.cards[k].heading,
            rect: content.cards[k].rect.shifted(-scroll),
            title: content.cards[k].title.shifted(-scroll),
            rows,
        };
        assert(card@.rows =~= from@.moved(-scroll).rows);
        cards.push(card);
        k = k + 1;
    }
    let r: Content = Content {
        cards,
        height: content.height,
        title: content.title.shifted(-scroll),
        description: content.description.shifted(-scroll),
    };
    assert(r@.cards =~= content@.moved(-scroll).cards);
    r
}

/// What the sidebar shows of a section.
pub open spec fn heading_of(section: SectionModel) -> Heading {
    Heading {
        id: section.id,
        title: section.title,
        description: section.description,
        is_about: section.is_about,
    }
}

/// Where sidebar entry `i` begins: one below the other from `start` on, and the about entry
/// so that it ends at `end`, but at least a gap below the others.
pub open spec fn nav_top(sections: Seq<SectionModel>, i: int, m: Metrics, start: int, end: int) -> int
    decreases i,
{
    let next = if i <= 0 {
        start
    } else {
        nav_top(sections, i - 1, m, start, end) + m.at(32_000) + m.at(2_000)
    };
    if sections[i].is_about {
        larger(next + m.at(10_000), end - m.at(32_000))
    } else {
        next
    }
}

/// Sidebar entry `i`.
pub open spec fn nav_item(
    sections: Seq<SectionModel>,
    i: int,
    sidebar: Rect,
    m: Metrics,
    active: Seq<char>,
) -> NavItem {
    let top = nav_top(
        sections,
        i,
        m,
        sidebar.top + m.at(22_000),
        sidebar.bottom - m.at(22_000),
    );
    NavItem {
        section: heading_of(sections[i]),
        rect: rect(
            sidebar.left + m.at(11_000),
            top,
            sidebar.right - m.at(11_000),
            top + m.at(32_000),
        ),
        active: sections[i].id@ == active,
    }
}

/// The sidebar, from top to bottom.
pub open spec fn nav_items(
    sections: Seq<SectionModel>,
    sidebar: Rect,
    m: Metrics,
    active: Seq<char>,
) -> Seq<NavItem> {
    Seq::new(sections.len(), |i: int| nav_item(sections, i, sidebar, m, active))
}

/// Sidebar entries, stacked from the top with the about entry pinned to the bottom.
fn layout_nav(sidebar: &Rect, metrics: &Metrics, active: &str) -> (nav: Vec<NavItem>)
    requires
        view_near(*sidebar),
    ensures
        nav@ == nav_items(all_sections(), *sidebar, *metrics, active@),
{
    let height: i64 = metrics.px(32_000);
    let gap: i64 = metrics.px(2_000);
    let ghost m = *metrics;
    let start: i64 = sidebar.top + metrics.px(22_000);
    let end: i64 = sidebar.bottom - metrics.px(22_000);
    let mut top: i64 = start;
    let all: Vec<Section> = sections();
    let ghost models = all_sections();
    let mut nav: Vec<NavItem> = Vec::new();
    let mut i: usize = 0;
    assert(models.len() == 9);
    while i < all.len()
        invariant
            view_near(*sidebar),
            m == *metrics,
            start == sidebar.top + m.at(22_000),
            end == sidebar.bottom - m.at(22_000),
            -8 * WINDOW_REACH <= end <= 8 * WINDOW_REACH,
            height == m.at(32_000),
            gap == m.at(2_000),
            0 <= height <= 32_000 * 0xffff_ffff,
            0 <= gap <= 2_000 * 0xffff_ffff,
            models == all_sections(),
            crate::settings::schema::section_models(all@) == models,
            all@.len() == 9,
            0 <= i <= 9,
            nav@.len() == i,
            start <= top <= 8 * WINDOW_REACH + i * 0x1_0000_0000_0000,
            -8 * WINDOW_REACH <= start <= 8 * WINDOW_REACH,
            top == (if i == 0 {
                start as int
            } else {
                nav_top(models, i - 1, m, start as int, end as int) + m.at(32_000) + m.at(2_000)
            }),
            forall|k: int|
                0 <= k < i ==> #[trigger] nav@[k] == nav_item(models, k, *sidebar, m, active@),
        decreases 9 - i,
    {
        let section: &Section = &all[i];
        assert(models[i as int] == all@[i as int]@);
        if section.is_about {
            top = max(top + metrics.px(10_000), end - height);
        }
        assert(top == nav_top(models, i as int, m, start as int, end as int));
        let rect: Rect = Rect::new(
            sidebar.left + metrics.px(11_000),
            top,
            sidebar.right - metrics.px(11_000),
            top + height,
        );
        nav.push(
            NavItem {
                section: Heading {
                    id: section.id,
                    title: section.title,
                    description: section.description,
                    is_about: section.is_about,
                },
                rect,
                active: same_text(section.id, active),
            },
        );
        top = top + height + gap;
        i = i + 1;
    }
    assert(nav@ =~= nav_items(models, *sidebar, m, active@));
    nav
}

/// The last entry that is a form.
pub open spec fn last_form(nav: Seq<NavItem>) -> Option<NavItem>
    decreases nav.len(),
{
    if nav.len() == 0 {
        None
    } else if !nav.last().section.is_about {
        Some(nav.last())
    } else {
        last_form(nav.drop_last())
    }
}

/// The first entry that is about the program.
pub open spec fn first_about(nav: Seq<NavItem>) -> Option<NavItem>
    decreases nav.len(),
{
    if nav.len() == 0 {
        None
    } else {
        match first_about(nav.drop_last()) {
            Some(item) => Some(item),
            None => if nav.last().section.is_about {
                Some(nav.last())
            } else {
                None
            },
        }
    }
}

/// The gap between the forms and the about entry, derived from what was laid out.
pub open spec fn spacer(nav: Seq<NavItem>) -> Rect {
    match (last_form(nav), first_about(nav)) {
        (Some(above), Some(below)) => if below.rect.top > above.rect.bottom {
            rect(
                above.rect.left as int,
                above.rect.bottom as int,
                above.rect.right as int,
                below.rect.top as int,
            )
        } else {
            rect(0, 0, 0, 0)
        },
        _ => rect(0, 0, 0, 0),
    }
}

fn spacer_between(nav: &Vec<NavItem>) -> (r: Rect)
    ensures
        r == spacer(nav@),
{
    let mut above: Option<Rect> = None;
    let mut below: Option<Rect> = None;
    let mut i: usize = 0;
    assert(nav@.take(0) =~= Seq::<NavItem>::empty());
    while i < nav.len()
        invariant
            0 <= i <= nav@.len(),
            match last_form(nav@.take(i as int)) {
                Some(item) => above == Some(item.rect),
                None => above is None,
            },
            match first_about(nav@.take(i as int)) {
                Some(item) => below == Some(item.rect),
                None => below is None,
            },
        decreases nav@.len() - i,
    {
        proof {
            let next = nav@.take(i + 1);
            assert(next.drop_last() =~= nav@.take(i as int));
            assert(next.last() == nav@[i as int]);
        }
        if nav[i].section.is_about {
            if below.is_none() {
                below = Some(nav[i].rect);
            }
        } else {
            above = Some(nav[i].rect);
        }
        i = i + 1;
    }
    assert(nav@.take(i as int) =~= nav@);
    match (above, below) {
        (Some(above), Some(below)) if below.top > above.bottom => Rect::new(
            above.left,
            above.bottom,
            above.right,
            below.top,
        ),
        _ => Rect::nowhere(),
    }
}

/// The strip of the window that the title bar takes.
pub open spec fn titlebar_of(window: Rect, m: Metrics) -> Rect {
    rect(
        window.left as int,
        window.top as int,
        window.right as int,
        smaller(window.top + m.at(38_000), window.bottom as int),
    )
}

/// The sidebar, below the title bar.
pub open spec fn sidebar_of(window: Rect, m: Metrics) -> Rect {
    rect(
        window.left as int,
        titlebar_of(window, m).bottom as int,
        smaller(window.left + m.at(176_000), window.right as int),
        window.bottom as int,
    )
}

/// The viewport: what the sidebar and the gutter of the scrollbar leave.
pub open spec fn viewport_of(window: Rect, m: Metrics) -> Rect {
    let sidebar = sidebar_of(window, m);
    rect(
        sidebar.right as int,
        sidebar.top as int,
        larger(window.right - (m.at(8_000) + m.at(11_000)), sidebar.right as int),
        window.bottom as int,
    )
}

/// How far a page of height `height` scrolls.
pub open spec fn scroll_end(viewport: Rect, height: int) -> int {
    larger(height - viewport.tall(), 0)
}

/// How tall the thumb of the scrollbar is: the share of the page that is on screen, but
/// no less than a thumb that can be caught.
pub open spec fn thumb_tall(viewport: Rect, height: int, m: Metrics) -> int {
    if height <= 0 {
        viewport.tall()
    } else {
        larger(viewport.tall() * smaller(viewport.tall(), height) / height, m.at(24_000))
    }
}

/// The thumb of the scrollbar, at the right edge of the window.
pub open spec fn thumb(window: Rect, viewport: Rect, height: int, scroll: int, m: Metrics) -> Rect {
    let end = scroll_end(viewport, height);
    let tall = thumb_tall(viewport, height, m);
    let top = viewport.top + (if end <= 0 {
        0
    } else {
        (viewport.tall() - tall) * scroll / end
    });
    rect(window.right - m.at(8_000), top, window.right as int, top + tall)
}

/// Is every edge of the window within reach?
pub open spec fn window_near(window: Rect) -> bool {
    &&& -WINDOW_REACH <= window.left <= WINDOW_REACH
    &&& -WINDOW_REACH <= window.top <= WINDOW_REACH
    &&& -WINDOW_REACH <= window.right <= WINDOW_REACH
    &&& -WINDOW_REACH <= window.bottom <= WINDOW_REACH
}

fn thumb_height(viewport: &Rect, height: i64, metrics: &Metrics) -> (r: i64)
    requires
        view_near(*viewport),
        viewport.tall() >= 0,
        0 <= height <= 0x0500_0000_0000_0000,
    ensures
        r == thumb_tall(*viewport, height as int, *metrics),
        0 <= r <= 0x80_0000_0000_0000,
{
    let tall: i64 = viewport.height();
    if height <= 0 {
        return tall;
    }
    let shown: i64 = crate::settings::geom::min(tall, height);
    proof {
        let (t, s, h) = (tall as int, shown as int, height as int);
        assert(0 <= t * s <= 0x40_0000_0000_0000 * 0x40_0000_0000_0000) by (nonlinear_arith)
            requires
                0 <= t <= 0x40_0000_0000_0000,
                0 <= s <= 0x40_0000_0000_0000,
        ;
        assert(0 <= t * s / h <= t) by (nonlinear_arith)
            requires
                0 <= t,
                0 <= s <= h,
                h > 0,
        ;
    }
    let product: i128 = tall as i128 * shown as i128;
    max((product / height as i128) as i64, metrics.px(24_000))
}

/// Does a layout show the page of a section, scrolled as far as `scroll` can be met?
pub open spec fn lays_out<F: Fn(&str, i64) -> i64>(
    r: Layout,
    window: Rect,
    m: Metrics,
    section: SectionModel,
    config: Config,
    scroll: int,
    measure: F,
) -> bool {
    &&& r.viewport == viewport_of(window, m)
    &&& exists|page: Page|
        #[trigger] is_page(page, viewport_of(window, m), m, section, config, measure)
            && page.wf() && r.content@ == page.moved(-(r.scroll as int))
    &&& r.scroll_max == scroll_end(r.viewport, r.content.height as int)
    &&& r.scroll == clamped(scroll, 0, r.scroll_max as int)
    &&& 0 <= r.scroll <= r.scroll_max <= PAGE_REACH
}

/// Build the layout for one section.
///
/// `measure_hint(text, width)` gives the height that a text needs when it is wrapped into
/// `width`.
#[verifier::rlimit(40)]
#[verifier::spinoff_prover]
pub fn layout<F: Fn(&str, i64) -> i64>(
    window: &Rect,
    metrics: &Metrics,
    section: &Section,
    config: &Config,
    scroll: i64,
    measure_hint: &F,
) -> (r: Layout)
    requires
        window_near(*window),
        measures(*measure_hint),
        small(section@),
    ensures
        r.titlebar == titlebar_of(*window, *metrics),
        r.sidebar == sidebar_of(*window, *metrics),
        r.viewport == viewport_of(*window, *metrics),
        r.nav@ == nav_items(
            all_sections(),
            sidebar_of(*window, *metrics),
            *metrics,
            section.id@,
        ),
        r.nav_spacer == spacer(r.nav@),
        lays_out(r, *window, *metrics, section@, *config, scroll as int, *measure_hint),
        r.scrollbar == thumb(
            *window,
            r.viewport,
            r.content.height as int,
            r.scroll as int,
            *metrics,
        ),
{
    let ghost m = *metrics;
    let titlebar: Rect = window.take_top(metrics.px(38_000));
    let body: Rect = Rect::new(window.left, titlebar.bottom, window.right, window.bottom);
    let sidebar: Rect = body.take_left(metrics.px(176_000));

    // The scrollbar lives in the gutter of the content, so the text never runs under it.
    let gutter: i64 = metrics.px(8_000) + metrics.px(11_000);
    let viewport: Rect = Rect::new(
        sidebar.right,
        body.top,
        max(body.right - gutter, sidebar.right),
        body.bottom,
    );
    assert(viewport == viewport_of(*window, m));

    let nav: Vec<NavItem> = layout_nav(&sidebar, metrics, section.id);
    let nav_spacer: Rect = spacer_between(&nav);
    let page: Content = layout_content(&viewport, metrics, section, config, measure_hint);
    let height: i64 = page.height;

    let scroll_max: i64 = max(height - viewport.height(), 0);
    let scroll: i64 = clamp(scroll, 0, scroll_max);
    let ghost unscrolled = page@;
    let content: Content = scrolled(page, scroll);

    let track_left: i64 = window.right - metrics.px(8_000);
    let tall: i64 = thumb_height(&viewport, height, metrics);
    let thumb_top: i64 = if scroll_max <= 0 {
        viewport.top
    } else {
        let room: i64 = viewport.height() - tall;
        proof {
            let (a, s, e) = (room as int, scroll as int, scroll_max as int);
            assert(-0x100_0000_0000_0000 * 0x0600_0000_0000_0000 <= a * s <= 0x100_0000_0000_0000
                * 0x0600_0000_0000_0000) by (nonlinear_arith)
                requires
                    -0x100_0000_0000_0000 <= a <= 0x100_0000_0000_0000,
                    0 <= s <= 0x0600_0000_0000_0000,
            ;
            if a >= 0 {
                assert(0 <= a * s / e <= a) by (nonlinear_arith)
                    requires
                        0 <= a,
                        0 <= s <= e,
                        e > 0,
                ;
            } else {
                assert(a <= a * s / e <= 0) by (nonlinear_arith)
                    requires
                        a < 0,
                        0 <= s <= e,
                        e > 0,
                ;
            }
        }
        viewport.top + floor_div(room as i128 * scroll as i128, scroll_max as i128) as i64
    };
    let scrollbar: Rect = Rect::new(track_left, thumb_top, window.right, thumb_top + tall);
    assert(is_page(unscrolled, viewport, m, section@, *config, *measure_hint));
    Layout {
        nav,
        nav_spacer,
        sidebar,
        titlebar,
        viewport,
        content,
        scrollbar,
        scroll_max,
        scroll,
    }
}

/// The first of some rows that a point is in.
pub open spec fn hit_row(rows: Seq<Row>, x: int, y: int) -> Option<int>
    decreases rows.len(),
{
    if rows.len() == 0 {
        None
    } else {
        match hit_row(rows.drop_last(), x, y) {
            Some(i) => Some(i),
            None => if rows.last().rect.holds(x, y) {
                Some(rows.len() - 1)
            } else {
                None
            },
        }
    }
}

/// The first of some sidebar entries that a point is in.
pub open spec fn hit_nav(nav: Seq<NavItem>, x: int, y: int) -> Option<int>
    decreases nav.len(),
{
    if nav.len() == 0 {
        None
    } else {
        match hit_nav(nav.drop_last(), x, y) {
            Some(i) => Some(i),
            None => if nav.last().rect.holds(x, y) {
                Some(nav.len() - 1)
            } else {
                None
            },
        }
    }
}

impl Content {
    /// Every row, from the top of the page to its bottom.
    pub fn rows(&self) -> (r: Vec<Row>)
        ensures
            r@ == self@.rows(),
    {
        let mut rows: Vec<Row> = Vec::new();
        let ghost cards = self@.cards;
        let mut k: usize = 0;
        assert(cards.take(0) =~= Seq::<CardLayout>::empty());
        while k < self.cards.len()
            invariant
                cards == self@.cards,
                cards.len() == self.cards@.len(),
                0 <= k <= cards.len(),
                rows@ == rows_of(cards.take(k as int)),
            decreases cards.len() - k,
        {
            let ghost before = rows@;
            proof {
                let next = cards.take(k + 1);
                assert(next.drop_last() =~= cards.take(k as int));
                assert(next.last() == self.cards@[k as int]@);
            }
            let ghost from = self.cards@[k as int].rows@;
            let mut j: usize = 0;
            assert(before + from.take(0) =~= before);
            while j < self.cards[k].rows.len()
                invariant
                    k < self.cards@.len(),
                    from == self.cards@[k as int].rows@,
                    0 <= j <= from.len(),
                    rows@ == before + from.take(j as int),
                decreases from.len() - j,
            {
                rows.push(self.cards[k].rows[j]);
                assert(rows@ =~= before + from.take(j + 1));
                j = j + 1;
            }
            assert(from.take(j as int) =~= from);
            k = k + 1;
        }
        assert(cards.take(k as int) =~= cards);
        rows
    }
}

impl Layout {
    /// The index of the row under a point, counted from the top of the page. Clipped to
    /// the viewport, so that a row scrolled out from under the header is not clickable
    /// through it.
    pub open spec fn row_index(&self, x: int, y: int) -> Option<int> {
        if self.viewport.holds(x, y) {
            hit_row(self.content@.rows(), x, y)
        } else {
            None
        }
    }

    /// The index of the row under `(x, y)`, if any.
    pub fn row_index_at(&self, x: i64, y: i64) -> (r: Option<usize>)
        ensures
            match self.row_index(x as int, y as int) {
                Some(i) => r is Some && r->0 == i && 0 <= i < self.content@.rows().len(),
                None => r is None,
            },
    {
        if !self.viewport.contains(x, y) {
            return None;
        }
        let rows: Vec<Row> = self.content.rows();
        let mut i: usize = 0;
        let mut found: Option<usize> = None;
        assert(rows@.take(0) =~= Seq::<Row>::empty());
        while i < rows.len()
            invariant
                0 <= i <= rows@.len(),
                match hit_row(rows@.take(i as int), x as int, y as int) {
                    Some(k) => found is Some && found->0 == k && 0 <= k < i,
                    None => found is None,
                },
            decreases rows@.len() - i,
        {
            proof {
                let next = rows@.take(i + 1);
                assert(next.drop_last() =~= rows@.take(i as int));
                assert(next.last() == rows@[i as int]);
            }
            if found.is_none() && rows[i].rect.contains(x, y) {
                found = Some(i);
            }
            i = i + 1;
        }
        assert(rows@.take(i as int) =~= rows@);
        found
    }

    /// Which row is under `(x, y)`, if any.
    pub fn row_at(&self, x: i64, y: i64) -> (r: Option<Row>)
        ensures
            r == (match self.row_index(x as int, y as int) {
                Some(i) => Some(self.content@.rows()[i]),
                None => None,
            }),
    {
        match self.row_index_at(x, y) {
            Some(i) => {
                let rows: Vec<Row> = self.content.rows();
                Some(rows[i])
            },
            None => None,
        }
    }

    /// The index of the sidebar entry under `(x, y)`.
    pub fn nav_index_at(&self, x: i64, y: i64) -> (r: Option<usize>)
        ensures
            match hit_nav(self.nav@, x as int, y as int) {
                Some(i) => r is Some && r->0 == i && 0 <= i < self.nav@.len(),
                None => r is None,
            },
    {
        let mut i: usize = 0;
        let mut found: Option<usize> = None;
        assert(self.nav@.take(0) =~= Seq::<NavItem>::empty());
        while i < self.nav.len()
            invariant
                0 <= i <= self.nav@.len(),
                match hit_nav(self.nav@.take(i as int), x as int, y as int) {
                    Some(k) => found is Some && found->0 == k && 0 <= k < i,
                    None => found is None,
                },
            decreases self.nav@.len() - i,
        {
            proof {
                let next = self.nav@.take(i + 1);
                assert(next.drop_last() =~= self.nav@.take(i as int));
                assert(next.last() == self.nav@[i as int]);
            }
            if found.is_none() && self.nav[i].rect.contains(x, y) {
                found = Some(i);
            }
            i = i + 1;
        }
        assert(self.nav@.take(i as int) =~= self.nav@);
        found
    }

    /// Which sidebar entry is under `(x, y)`.
    pub fn nav_at(&self, x: i64, y: i64) -> (r: Option<NavItem>)
        ensures
            r == (match hit_nav(self.nav@, x as int, y as int) {
                Some(i) => Some(self.nav@[i]),
                None => None,
            }),
    {
        match self.nav_index_at(x, y) {
            Some(i) => Some(self.nav[i]),
            None => None,
        }
    }
}

/// Scrolling a page moves each of its rows, and nothing else about them.
pub proof fn scrolling_moves_every_row(page: Page, dy: int)
    ensures
        page.moved(dy).rows() == page.rows().map_values(|row: Row| row.moved(dy)),
        page.moved(dy).height == page.height,
{
    lemma_moved_rows(page.cards, dy);
}

proof fn lemma_moved_rows(cards: Seq<CardLayout>, dy: int)
    ensures
        rows_of(cards.map_values(|card: CardLayout| card.moved(dy))) == rows_of(cards).map_values(
            |row: Row| row.moved(dy),
        ),
    decreases cards.len(),
{
    let moved = cards.map_values(|card: CardLayout| card.moved(dy));
    if cards.len() > 0 {
        let before = cards.drop_last();
        lemma_moved_rows(before, dy);
        assert(moved.drop_last() =~= before.map_values(|card: CardLayout| card.moved(dy)));
        assert(moved.last() == cards.last().moved(dy));
        assert(rows_of(moved) =~= rows_of(cards).map_values(|row: Row| row.moved(dy)));
    } else {
        assert(rows_of(moved) =~= rows_of(cards).map_values(|row: Row| row.moved(dy)));
    }
}

/// Every row of a page belongs to a card, and to a field of the section that is shown.
pub proof fn every_row_comes_from_a_field<F: Fn(&str, i64) -> i64>(
    page: Page,
    viewport: Rect,
    m: Metrics,
    section: SectionModel,
    config: Config,
    measure: F,
    i: int,
)
    requires
        is_page(page, viewport, m, section, config, measure),
        page.wf(),
        0 <= i < page.rows().len(),
    ensures
        page.rows()[i].wf(),
        exists|k: int, j: int|
            0 <= k < section.cards.len() && 0 <= j < section.cards[k].fields.len()
                && #[trigger] section.cards[k].fields[j] == page.rows()[i].field,
{
    let (k, j) = lemma_row_place(page.cards, i);
    let c = columns(viewport, m);
    let first = first_card_top(page, viewport, m, section);
    assert(card_fits(page.cards, section, k, config, m, c, first, measure));
    assert(page.cards[k].wf());
    let card = page.cards[k];
    let spec = section.cards[k];
    hidden_rows_take_no_space(card, spec, config, m, c, card_top(page.cards, k, m, first), measure);
    let at = lemma_shown_place(spec.fields, config, j);
    assert(spec.fields[at] == card.rows[j].field);
}

/// A row of some cards is a row of one of them.
proof fn lemma_row_place(cards: Seq<CardLayout>, i: int) -> (at: (int, int))
    requires
        0 <= i < rows_of(cards).len(),
    ensures
        0 <= at.0 < cards.len(),
        0 <= at.1 < cards[at.0].rows.len(),
        rows_of(cards)[i] == cards[at.0].rows[at.1],
    decreases cards.len(),
{
    let before = cards.drop_last();
    if i < rows_of(before).len() {
        let at = lemma_row_place(before, i);
        assert(before[at.0] == cards[at.0]);
        at
    } else {
        (cards.len() - 1, i - rows_of(before).len())
    }
}

/// A field that is shown is one of the fields.
proof fn lemma_shown_place(fields: Seq<Field>, config: Config, j: int) -> (at: int)
    requires
        0 <= j < shown_fields(fields, config).len(),
    ensures
        0 <= at < fields.len(),
        fields[at] == shown_fields(fields, config)[j],
    decreases fields.len(),
{
    let before = fields.drop_last();
    if j < shown_fields(before, config).len() {
        let at = lemma_shown_place(before, config, j);
        assert(before[at] == fields[at]);
        at
    } else {
        fields.len() - 1
    }
}

/// The row that is hit holds the point, and no row above it does; where none is hit, none
/// holds it.
pub proof fn a_hit_row_holds_the_point(rows: Seq<Row>, x: int, y: int)
    ensures
        match hit_row(rows, x, y) {
            Some(i) => 0 <= i < rows.len() && rows[i].rect.holds(x, y) && (forall|j: int|
                0 <= j < i ==> !(#[trigger] rows[j]).rect.holds(x, y)),
            None => forall|j: int| 0 <= j < rows.len() ==> !(#[trigger] rows[j]).rect.holds(x, y),
        },
    decreases rows.len(),
{
    if rows.len() > 0 {
        let before = rows.drop_last();
        a_hit_row_holds_the_point(before, x, y);
        assert forall|j: int| 0 <= j < before.len() implies #[trigger] rows[j] == before[j] by {
        }
    }
}

/// The rows of a card meet exactly: each begins where the one above it ends. Scrolling
/// does not change that.
pub proof fn rows_meet_exactly<F: Fn(&str, i64) -> i64>(
    card: CardLayout,
    spec: CardModel,
    config: Config,
    m: Metrics,
    c: Columns,
    top: int,
    measure: F,
    i: int,
    dy: int,
)
    requires
        is_card(card, spec, config, m, c, top, measure),
        card.wf(),
        0 <= i < card.rows.len() - 1,
    ensures
        card.rows[i].rect.bottom == card.rows[i + 1].rect.top,
        card.moved(dy).rows[i].rect.bottom == card.moved(dy).rows[i + 1].rect.top,
{
    let fields = shown_fields(spec.fields, config);
    let inner = card_inner(spec, m, top);
    assert(row_fits(card.rows, fields, i + 1, m, c, inner, measure));
    assert(card.rows[i].wf());
    assert(card.rows[i].rect.bottom as int as i64 == card.rows[i].rect.bottom);
}

/// Every card leaves one gap to the card below it.
pub proof fn cards_leave_a_gap<F: Fn(&str, i64) -> i64>(
    page: Page,
    viewport: Rect,
    m: Metrics,
    section: SectionModel,
    config: Config,
    measure: F,
    i: int,
)
    requires
        is_page(page, viewport, m, section, config, measure),
        page.wf(),
        0 <= i < page.cards.len() - 1,
    ensures
        page.cards[i].rect.bottom + m.at(14_000) == page.cards[i + 1].rect.top,
{
    let c = columns(viewport, m);
    let first = first_card_top(page, viewport, m, section);
    assert(card_fits(page.cards, section, i + 1, config, m, c, first, measure));
    assert(page.cards[i].wf());
    assert(page.cards[i + 1].wf());
    assert(0 <= m.at(14_000) <= 14_000 * 0xffff_ffff) by (nonlinear_arith)
        requires
            0 <= m.dpi <= 0xffff_ffff,
    ;
}

/// What is hidden takes no space: a card has one row for each field that is shown, and
/// no other.
pub proof fn hidden_rows_take_no_space<F: Fn(&str, i64) -> i64>(
    card: CardLayout,
    spec: CardModel,
    config: Config,
    m: Metrics,
    c: Columns,
    top: int,
    measure: F,
)
    requires
        is_card(card, spec, config, m, c, top, measure),
    ensures
        card.rows.len() == shown_fields(spec.fields, config).len(),
        forall|i: int|
            0 <= i < card.rows.len() ==> (#[trigger] card.rows[i]).field == shown_fields(
                spec.fields,
                config,
            )[i],
        forall|i: int| 0 <= i < card.rows.len() ==> (#[trigger] card.rows[i]).field.shown(config),
{
    let fields = shown_fields(spec.fields, config);
    let inner = card_inner(spec, m, top);
    lemma_shown(spec.fields, config);
    assert forall|i: int| 0 <= i < card.rows.len() implies (#[trigger] card.rows[i]).field
        == fields[i] && card.rows[i].field.shown(config) by {
        assert(row_fits(card.rows, fields, i, m, c, inner, measure));
    }
}

proof fn lemma_shown(fields: Seq<Field>, config: Config)
    ensures
        forall|i: int|
            0 <= i < shown_fields(fields, config).len() ==> (#[trigger] shown_fields(
                fields,
                config,
            )[i]).shown(config),
    decreases fields.len(),
{
    if fields.len() > 0 {
        let before = shown_fields(fields.drop_last(), config);
        lemma_shown(fields.drop_last(), config);
        assert forall|i: int| 0 <= i < shown_fields(fields, config).len() implies (
        #[trigger] shown_fields(fields, config)[i]).shown(config) by {
            if i < before.len() {
                assert(before[i].shown(config));
                assert(shown_fields(fields, config)[i] == before[i]);
            }
        }
    }
}

/// The label column ends one gap before the control column begins, wherever there is
/// room for a label at all.
pub proof fn labels_end_before_controls(
    field: Field,
    viewport: Rect,
    m: Metrics,
    top: int,
    hint_height: int,
    first: bool,
)
    requires
        viewport.left >= -WINDOW_REACH,
        viewport.left <= WINDOW_REACH,
        viewport.right >= -WINDOW_REACH,
        viewport.right <= WINDOW_REACH,
        !row_at(field, m, columns(viewport, m), top, hint_height, first).label.void(),
    ensures
        ({
            let row = row_at(field, m, columns(viewport, m), top, hint_height, first);
            &&& row.label.right + m.at(16_000) == row.control.left
            &&& row.control.right + m.at(12_000) == row.rect.right
        }),
{
    let c = columns(viewport, m);
    assert(0 <= m.at(12_000) <= 12_000 * 0xffff_ffff && 0 <= m.at(16_000) <= 16_000 * 0xffff_ffff
        && 0 <= m.at(22_000) <= 22_000 * 0xffff_ffff && 0 <= m.at(226_000) <= 226_000
        * 0xffff_ffff) by (nonlinear_arith)
        requires
            0 <= m.dpi <= 0xffff_ffff,
    ;
}

/// A label is one line tall, and its hint begins one gap below it.
pub proof fn a_hint_sits_below_its_label(
    field: Field,
    m: Metrics,
    c: Columns,
    top: int,
    h: int,
    first: bool,
)
    requires
        !spans(field.kind),
        0 <= h <= TEXT_REACH,
        h + m.at(3_000) > 0,
        -0x0400_0000_0000_0000 <= top <= 0x0800_0000_0000_0000,
    ensures
        ({
            let row = row_at(field, m, c, top, h + m.at(3_000), first);
            &&& row.label.tall() == m.at(16_875)
            &&& row.hint.top == row.label.bottom + m.at(3_000)
            &&& row.hint.tall() == h
            &&& row.hint.bottom <= row.rect.bottom
        }),
{
    assert(0 <= m.at(9_000) <= 9_000 * 0xffff_ffff && 0 <= m.at(16_875) <= 16_875 * 0xffff_ffff
        && 0 <= m.at(3_000) <= 3_000 * 0xffff_ffff && 0 <= m.at(38_000) <= 38_000 * 0xffff_ffff
        && 0 <= m.at(28_000) <= 28_000 * 0xffff_ffff && 0 <= m.at(23_000) <= 23_000 * 0xffff_ffff)
        by (nonlinear_arith)
        requires
            0 <= m.dpi <= 0xffff_ffff,
    ;
}

/// Scrolled to its end, the page ends at the bottom of the viewport or above it.
pub proof fn the_end_of_the_page_stays_in_view<F: Fn(&str, i64) -> i64>(
    page: Page,
    viewport: Rect,
    m: Metrics,
    section: SectionModel,
    config: Config,
    measure: F,
    i: int,
)
    requires
        is_page(page, viewport, m, section, config, measure),
        page.wf(),
        viewport.wf(),
        i == page.cards.len() - 1,
        0 <= i,
        scroll_end(viewport, page.height) <= 0x0600_0000_0000_0000,
    ensures
        page.moved(-scroll_end(viewport, page.height)).cards[i].rect.bottom + m.at(14_000)
            <= viewport.bottom,
{
    assert(page.cards[i].wf());
    assert(0 <= m.at(14_000) <= 14_000 * 0xffff_ffff) by (nonlinear_arith)
        requires
            0 <= m.dpi <= 0xffff_ffff,
    ;
}

/// The thumb stays on its track, from one end to the other, wherever the track is high
/// enough to hold a thumb.
pub proof fn the_thumb_stays_on_its_track(window: Rect, viewport: Rect, height: int, scroll: int, m: Metrics)
    requires
        viewport.wf(),
        0 < height,
        m.at(24_000) <= viewport.tall(),
        0 <= scroll <= scroll_end(viewport, height),
    ensures
        ({
            let bar = thumb(window, viewport, height, scroll, m);
            &&& viewport.top <= bar.top
            &&& bar.bottom <= viewport.bottom
            &&& scroll == 0 ==> bar.top == viewport.top
            &&& scroll == scroll_end(viewport, height) && scroll > 0 ==> bar.bottom
                == viewport.bottom
        }),
{
    let tall = viewport.tall();
    let shown = smaller(tall, height);
    let end = scroll_end(viewport, height);
    let bar_tall = thumb_tall(viewport, height, m);
    assert(0 <= m.at(24_000)) by (nonlinear_arith)
        requires
            0 <= m.dpi,
    ;
    assert(0 <= tall * shown / height <= tall) by (nonlinear_arith)
        requires
            0 <= tall,
            0 <= shown <= height,
            height > 0,
    ;
    if end > 0 {
        let room = tall - bar_tall;
        assert(0 <= room * scroll / end <= room) by (nonlinear_arith)
            requires
                0 <= room,
                0 <= scroll <= end,
                end > 0,
        ;
        if scroll == end {
            assert(room * scroll / end == room) by (nonlinear_arith)
                requires
                    scroll == end,
                    end > 0,
            ;
        }
        if scroll == 0 {
            assert(room * scroll / end == 0) by (nonlinear_arith)
                requires
                    scroll == 0,
                    end > 0,
            ;
        }
    }
}

/// Sidebar entries never overlap: each begins below the end of every one before it.
pub proof fn sidebar_entries_stack(
    sections: Seq<SectionModel>,
    m: Metrics,
    start: int,
    end: int,
    i: int,
    j: int,
)
    requires
        0 <= i < j,
    ensures
        nav_top(sections, i, m, start, end) + m.at(32_000) + m.at(2_000) <= nav_top(
            sections,
            j,
            m,
            start,
            end,
        ),
        sections[j].is_about ==> nav_top(sections, i, m, start, end) + m.at(32_000) + m.at(2_000)
            + m.at(10_000) <= nav_top(sections, j, m, start, end),
    decreases j,
{
    assert(0 <= m.at(32_000) && 0 <= m.at(2_000) && 0 <= m.at(10_000)) by (nonlinear_arith)
        requires
            0 <= m.dpi,
    ;
    if i < j - 1 {
        sidebar_entries_stack(sections, m, start, end, i, j - 1);
    }
}

/// The about entry ends at the bottom of the sidebar, wherever the others leave the room.
pub proof fn the_about_entry_sits_at_the_bottom(
    sections: Seq<SectionModel>,
    m: Metrics,
    start: int,
    end: int,
    i: int,
)
    requires
        0 < i,
        sections[i].is_about,
        nav_top(sections, i - 1, m, start, end) + m.at(32_000) + m.at(2_000) + m.at(10_000)
            + m.at(32_000) <= end,
    ensures
        nav_top(sections, i, m, start, end) + m.at(32_000) == end,
{
}

/// Does `measure` always give one answer to one question?
pub open spec fn answers_alike<F: Fn(&str, i64) -> i64>(measure: F) -> bool {
    forall|text: &str, width: i64, g: i64, h: i64| #[trigger]
        call_ensures(measure, (text, width), g) && #[trigger] call_ensures(
            measure,
            (text, width),
            h,
        ) ==> g == h
}

proof fn lemma_one_stack<F: Fn(&str, i64) -> i64>(
    a: Seq<Row>,
    b: Seq<Row>,
    fields: Seq<Field>,
    m: Metrics,
    c: Columns,
    top: int,
    measure: F,
    n: int,
)
    requires
        answers_alike(measure),
        is_stack(a, fields, m, c, top, measure),
        is_stack(b, fields, m, c, top, measure),
        0 <= n <= fields.len(),
    ensures
        forall|i: int| 0 <= i < n ==> #[trigger] a[i] == b[i],
    decreases n,
{
    if n > 0 {
        lemma_one_stack(a, b, fields, m, c, top, measure, n - 1);
        let i = n - 1;
        assert(row_fits(a, fields, i, m, c, top, measure));
        assert(row_fits(b, fields, i, m, c, top, measure));
        if i > 0 {
            assert(a[i - 1] == b[i - 1]);
        }
        match fields[i].hint {
            Some(hint) => {
                let g = choose|h: int| #[trigger]
                    measured(measure, hint, c.label_width, h) && a[i] == row_at(
                        fields[i],
                        m,
                        c,
                        next_top(a, i, top),
                        h + m.at(3_000),
                        i == 0,
                    );
                let h = choose|h: int| #[trigger]
                    measured(measure, hint, c.label_width, h) && b[i] == row_at(
                        fields[i],
                        m,
                        c,
                        next_top(b, i, top),
                        h + m.at(3_000),
                        i == 0,
                    );
                assert(g as i64 == h as i64);
                assert(a[i] == b[i]);
            },
            None => {},
        }
    }
}

proof fn lemma_one_row_of_cards<F: Fn(&str, i64) -> i64>(
    a: Seq<CardLayout>,
    b: Seq<CardLayout>,
    section: SectionModel,
    config: Config,
    m: Metrics,
    c: Columns,
    first: int,
    measure: F,
    n: int,
)
    requires
        answers_alike(measure),
        forall|i: int|
            0 <= i < n ==> #[trigger] card_fits(a, section, i, config, m, c, first, measure),
        forall|i: int|
            0 <= i < n ==> #[trigger] card_fits(b, section, i, config, m, c, first, measure),
        0 <= n,
    ensures
        forall|i: int| 0 <= i < n ==> #[trigger] a[i] == b[i],
    decreases n,
{
    if n > 0 {
        lemma_one_row_of_cards(a, b, section, config, m, c, first, measure, n - 1);
        let i = n - 1;
        assert(card_fits(a, section, i, config, m, c, first, measure));
        assert(card_fits(b, section, i, config, m, c, first, measure));
        if i > 0 {
            assert(a[i - 1] == b[i - 1]);
        }
        let top = card_top(a, i, m, first);
        let fields = shown_fields(section.cards[i].fields, config);
        lemma_one_stack(
            a[i].rows,
            b[i].rows,
            fields,
            m,
            c,
            card_inner(section.cards[i], m, top),
            measure,
            fields.len() as int,
        );
        assert(a[i].rows =~= b[i].rows);
        assert(a[i] =~= b[i]);
    }
}

/// A section has one page, as long as texts measure alike.
pub proof fn a_section_has_one_page<F: Fn(&str, i64) -> i64>(
    a: Page,
    b: Page,
    viewport: Rect,
    m: Metrics,
    section: SectionModel,
    config: Config,
    measure: F,
)
    requires
        answers_alike(measure),
        is_page(a, viewport, m, section, config, measure),
        is_page(b, viewport, m, section, config, measure),
    ensures
        a == b,
{
    let c = columns(viewport, m);
    if section.description@.len() > 0 {
        let g = choose|h: int| #[trigger]
            measured(measure, section.description, c.right - c.left, h) && a.description == rect(
                c.left,
                description_top(viewport, m),
                c.right,
                description_top(viewport, m) + h,
            );
        let h = choose|h: int| #[trigger]
            measured(measure, section.description, c.right - c.left, h) && b.description == rect(
                c.left,
                description_top(viewport, m),
                c.right,
                description_top(viewport, m) + h,
            );
        assert(g as i64 == h as i64);
    }
    let first = first_card_top(a, viewport, m, section);
    lemma_one_row_of_cards(
        a.cards,
        b.cards,
        section,
        config,
        m,
        c,
        first,
        measure,
        section.cards.len() as int,
    );
    assert(a.cards =~= b.cards);
}

proof fn lemma_moved_back(page: Page, a: int, b: int)
    requires
        page.wf(),
        0 <= a <= PAGE_REACH,
        0 <= b <= PAGE_REACH,
    ensures
        page.moved(-a).moved(a - b) == page.moved(-b),
{
    let once = page.moved(-a).moved(a - b);
    let at_once = page.moved(-b);
    assert forall|i: int| 0 <= i < page.cards.len() implies once.cards[i] == #[trigger]
        at_once.cards[i] by {
        let card = page.cards[i];
        assert(card.wf());
        assert forall|j: int| 0 <= j < card.rows.len() implies #[trigger] once.cards[i].rows[j]
            == at_once.cards[i].rows[j] by {
            assert(card.rows[j].wf());
        }
        assert(once.cards[i].rows =~= at_once.cards[i].rows);
        assert(once.cards[i] =~= at_once.cards[i]);
    }
    assert(once.cards =~= at_once.cards);
}

/// Two scroll offsets show one and the same page, moved by different amounts: it is as tall,
/// scrolls as far, and every card and row of the one is that of the other, moved by the
/// difference between the offsets after clamping.
pub proof fn offsets_show_one_page<F: Fn(&str, i64) -> i64>(
    a: Layout,
    b: Layout,
    window: Rect,
    m: Metrics,
    section: SectionModel,
    config: Config,
    measure: F,
    from: int,
    to: int,
)
    requires
        answers_alike(measure),
        lays_out(a, window, m, section, config, from, measure),
        lays_out(b, window, m, section, config, to, measure),
    ensures
        a.content@.height == b.content@.height,
        a.scroll_max == b.scroll_max,
        a.scroll == clamped(from, 0, a.scroll_max as int),
        b.scroll == clamped(to, 0, a.scroll_max as int),
        b.content@ == a.content@.moved(a.scroll - b.scroll),
{
    let viewport = viewport_of(window, m);
    let p = choose|page: Page| #[trigger]
        is_page(page, viewport, m, section, config, measure) && page.wf() && a.content@
            == page.moved(-(a.scroll as int));
    let q = choose|page: Page| #[trigger]
        is_page(page, viewport, m, section, config, measure) && page.wf() && b.content@
            == page.moved(-(b.scroll as int));
    a_section_has_one_page(p, q, viewport, m, section, config, measure);
    lemma_moved_back(p, a.scroll as int, b.scroll as int);
}

/// A row is at least thirty-eight units tall and has room for its hint and its control, with
/// nine units above and below. The label is one line at its top left; the control ends twelve
/// units from its right edge and is two hundred and twenty-six wide. A row with nothing to the
/// right of a label has its control across the whole width, and no label. Every row but the
/// first of its card has a divider.
#[verifier::spinoff_prover]
pub proof fn a_row_has_room_for_its_parts(
    field: Field,
    m: Metrics,
    c: Columns,
    top: int,
    hint_height: int,
    first: bool,
)
    requires
        -WINDOW_REACH <= c.left <= WINDOW_REACH,
        -WINDOW_REACH <= c.right <= WINDOW_REACH,
        0 <= c.label_width <= WINDOW_REACH,
        0 <= hint_height <= TEXT_REACH,
        -0x0400_0000_0000_0000 <= top <= 0x0800_0000_0000_0000,
    ensures
        ({
            let row = row_at(field, m, c, top, hint_height, first);
            let unit = 1_000 * m.dpi;
            let tall = row.rect.bottom - row.rect.top;
            &&& row.field == field
            &&& row.rect.top == top && row.rect.left == c.left && row.rect.right == c.right
            &&& tall >= 38 * unit
            &&& tall >= 16_875 * m.dpi + hint_height + 18 * unit
            &&& row.control.top == top + 9 * unit
            &&& row.control.bottom + 9 * unit <= row.rect.bottom
            &&& row.control.right == c.right - 12 * unit
            &&& row.divider == !first
            &&& field.kind is Status || field.kind is Action ==> row.control.left == c.left + 12
                * unit && row.control.bottom + 9 * unit == row.rect.bottom && row.label.void()
            &&& !(field.kind is Status || field.kind is Action) ==> row.control.left == c.right - 238
                * unit && row.label.left == c.left + 12 * unit && row.label.top == top + 9 * unit
                && row.label.bottom - row.label.top == 16_875 * m.dpi && row.label.right
                - row.label.left == c.label_width
            &&& field.kind is Switch ==> row.control.bottom - row.control.top == 23 * unit
            &&& !(field.kind is Switch || field.kind is Status || field.kind is Action)
                ==> row.control.bottom - row.control.top == 28 * unit
            &&& hint_height == 0 ==> row.hint.void()
        }),
{
    assert(0 <= m.dpi <= 0xffff_ffff);
}

/// The columns of a page: twenty-two units free on either side, and for the label what is left
/// of the row once its padding, the control and the gap between the two are taken off.
pub proof fn a_page_has_its_margins(viewport: Rect, m: Metrics)
    ensures
        ({
            let c = columns(viewport, m);
            &&& c.left == viewport.left + 22_000 * m.dpi
            &&& c.right == viewport.right - 22_000 * m.dpi
            &&& c.label_width >= 0
            &&& c.right - c.left >= 266_000 * m.dpi ==> c.label_width == c.right - c.left - 266_000
                * m.dpi
        }),
{
    assert(0 <= m.dpi <= 0xffff_ffff);
}

/// The title bar, the sidebar and the page tile the window: thirty-eight units at the top,
/// a hundred and seventy-six at the left, and the rest but nineteen units at the right, which
/// the scrollbar has to itself.
#[verifier::spinoff_prover]
pub proof fn the_window_is_tiled(window: Rect, m: Metrics)
    requires
        window_near(window),
        window.right - window.left >= 195_000 * m.dpi,
        window.bottom - window.top >= 38_000 * m.dpi,
    ensures
        ({
            let (bar, side, view) = (
                titlebar_of(window, m),
                sidebar_of(window, m),
                viewport_of(window, m),
            );
            &&& bar.left == window.left && bar.right == window.right && bar.top == window.top
            &&& bar.bottom == window.top + 38_000 * m.dpi
            &&& side.left == window.left && side.right == window.left + 176_000 * m.dpi
            &&& side.top == bar.bottom && side.bottom == window.bottom
            &&& view.left == side.right && view.right == window.right - 19_000 * m.dpi
            &&& view.top == bar.bottom && view.bottom == window.bottom
        }),
{
    assert(0 <= m.dpi <= 0xffff_ffff);
}

/// A page scrolls by as much as it is taller than its viewport, and not at all if it is not.
pub proof fn a_page_scrolls_to_its_end(viewport: Rect, height: int)
    ensures
        height <= viewport.bottom - viewport.top ==> scroll_end(viewport, height) == 0,
        height >= viewport.bottom - viewport.top ==> scroll_end(viewport, height) == height - (
        viewport.bottom - viewport.top),
{
}

/// The thumb is to its track as the viewport is to the page, but no shorter than twenty-four
/// units, and it is as long as the track where nothing is hidden.
pub proof fn the_thumb_shows_the_share_in_view(viewport: Rect, height: int, m: Metrics)
    requires
        viewport.bottom >= viewport.top,
        height > 0,
    ensures
        ({
            let tall = viewport.bottom - viewport.top;
            let bar = thumb_tall(viewport, height, m);
            &&& bar >= 24_000 * m.dpi
            &&& tall <= height && bar > 24_000 * m.dpi ==> bar * height <= tall * tall < bar * height
                + height
            &&& height <= tall && 24_000 * m.dpi <= tall ==> bar == tall
        }),
{
    let tall = viewport.bottom - viewport.top;
    let shown = smaller(tall, height);
    let q = tall * shown / height;
    let p = tall * shown;
    assert(0 <= p) by (nonlinear_arith)
        requires
            p == tall * shown,
            0 <= tall,
            0 <= shown,
    ;
    assert(q * height <= p < q * height + height) by (nonlinear_arith)
        requires
            q == p / height,
            height > 0,
    ;
    if height <= tall {
        assert(q == tall) by (nonlinear_arith)
            requires
                q * height <= tall * height < q * height + height,
                height > 0,
        ;
    }
}

/// Each sidebar entry stands for its own section and is marked when that is the one that is
/// shown. It is thirty-two units tall and eleven from either side; the first one that is a form
/// begins twenty-two units below the top.
pub proof fn an_entry_stands_for_its_section(
    sections: Seq<SectionModel>,
    i: int,
    sidebar: Rect,
    m: Metrics,
    active: Seq<char>,
)
    requires
        0 <= i < sections.len(),
        window_near(sidebar),
        -0x0800_0000_0000_0000 <= nav_top(
            sections,
            i,
            m,
            sidebar.top + m.at(22_000),
            sidebar.bottom - m.at(22_000),
        ) <= 0x0800_0000_0000_0000,
    ensures
        ({
            let items = nav_items(sections, sidebar, m, active);
            let item = items[i];
            &&& items.len() == sections.len()
            &&& item.section.id == sections[i].id
            &&& item.section.title == sections[i].title
            &&& item.section.description == sections[i].description
            &&& item.section.is_about == sections[i].is_about
            &&& item.active <==> sections[i].id@ == active
            &&& item.rect.left == sidebar.left + 11_000 * m.dpi
            &&& item.rect.right == sidebar.right - 11_000 * m.dpi
            &&& item.rect.bottom - item.rect.top == 32_000 * m.dpi
            &&& i == 0 && !sections[0].is_about ==> item.rect.top == sidebar.top + 22_000 * m.dpi
        }),
{
    assert(0 <= m.dpi <= 0xffff_ffff);
}

/// Each form follows two units below the entry before it.
pub proof fn forms_follow_each_other(
    sections: Seq<SectionModel>,
    m: Metrics,
    start: int,
    end: int,
    i: int,
)
    requires
        0 < i,
        !sections[i].is_about,
    ensures
        nav_top(sections, i, m, start, end) == nav_top(sections, i - 1, m, start, end) + 34_000
            * m.dpi,
{
}

/// The entry that is hit holds the point, and no entry above it does; where none is hit, none
/// holds it.
pub proof fn a_hit_entry_holds_the_point(nav: Seq<NavItem>, x: int, y: int)
    ensures
        match hit_nav(nav, x, y) {
            Some(i) => 0 <= i < nav.len() && nav[i].rect.holds(x, y) && (forall|j: int|
                0 <= j < i ==> !(#[trigger] nav[j]).rect.holds(x, y)),
            None => forall|j: int| 0 <= j < nav.len() ==> !(#[trigger] nav[j]).rect.holds(x, y),
        },
    decreases nav.len(),
{
    if nav.len() > 0 {
        let before = nav.drop_last();
        a_hit_entry_holds_the_point(before, x, y);
        assert forall|j: int| 0 <= j < before.len() implies #[trigger] nav[j] == before[j] by {
        }
    }
}

/// The gap of the sidebar is between its last form and its entry about the program.
pub proof fn the_gap_is_above_the_about_entry(forms: Seq<NavItem>, form: NavItem, about: NavItem)
    requires
        forall|i: int| 0 <= i < forms.len() ==> !(#[trigger] forms[i]).section.is_about,
        !form.section.is_about,
        about.section.is_about,
        form.rect.bottom < about.rect.top,
    ensures
        ({
            let gap = spacer(forms.push(form).push(about));
            &&& gap.top == form.rect.bottom
            &&& gap.bottom == about.rect.top
            &&& gap.left == form.rect.left && gap.right == form.rect.right
        }),
{
    let upper = forms.push(form);
    let all = upper.push(about);
    assert(all.drop_last() =~= upper);
    assert(last_form(upper) == Some(form));
    assert(last_form(all) == Some(form));
    lemma_no_about(upper);
    assert(first_about(all) == Some(about));
}

proof fn lemma_no_about(nav: Seq<NavItem>)
    requires
        forall|i: int| 0 <= i < nav.len() ==> !(#[trigger] nav[i]).section.is_about,
    ensures
        first_about(nav) is None,
    decreases nav.len(),
{
    if nav.len() > 0 {
        assert forall|i: int| 0 <= i < nav.drop_last().len() implies !(
        #[trigger] nav.drop_last()[i]).section.is_about by {
            assert(nav.drop_last()[i] == nav[i]);
        }
        lemma_no_about(nav.drop_last());
    }
}

/// Of the fields of a card exactly those that are shown are laid out.
pub proof fn exactly_the_shown_fields_are_laid_out(fields: Seq<Field>, config: Config)
    ensures
        forall|i: int|
            0 <= i < fields.len() && (#[trigger] fields[i]).shown(config) ==> shown_fields(
                fields,
                config,
            ).contains(fields[i]),
        forall|k: int|
            0 <= k < shown_fields(fields, config).len() ==> fields.contains(
                #[trigger] shown_fields(fields, config)[k],
            ) && shown_fields(fields, config)[k].shown(config),
        shown_fields(fields, config).len() <= fields.len(),
        (forall|i: int| 0 <= i < fields.len() ==> (#[trigger] fields[i]).shown(config))
            ==> shown_fields(fields, config) == fields,
    decreases fields.len(),
{
    if fields.len() > 0 {
        let before = fields.drop_last();
        let earlier = shown_fields(before, config);
        let kept = shown_fields(fields, config);
        exactly_the_shown_fields_are_laid_out(before, config);
        assert forall|i: int| 0 <= i < fields.len() && (#[trigger] fields[i]).shown(
            config,
        ) implies kept.contains(fields[i]) by {
            if i < before.len() {
                assert(before[i] == fields[i]);
                let k = earlier.index_of(fields[i]);
                assert(kept[k] == fields[i]);
            } else {
                assert(kept[kept.len() - 1] == fields[i]);
            }
        }
        assert forall|k: int| 0 <= k < kept.len() implies fields.contains(#[trigger] kept[k])
            && kept[k].shown(config) by {
            if k < earlier.len() {
                assert(kept[k] == earlier[k]);
                let j = before.index_of(earlier[k]);
                assert(fields[j] == kept[k]);
            } else {
                assert(fields[fields.len() - 1] == kept[k]);
            }
        }
        if forall|i: int| 0 <= i < fields.len() ==> (#[trigger] fields[i]).shown(config) {
            assert forall|i: int| 0 <= i < before.len() implies (#[trigger] before[i]).shown(
                config,
            ) by {
                assert(before[i] == fields[i]);
            }
            assert(fields[fields.len() - 1].shown(config));
            assert(kept =~= fields);
        }
    } else {
        assert(shown_fields(fields, config) =~= fields);
    }
}

/// A page begins a little below the top of its viewport with its heading, nineteen units tall;
/// eight units below that comes the explanation, if there is one, and sixteen below that the
/// first card.
#[verifier::spinoff_prover]
pub proof fn a_page_begins_with_its_heading<F: Fn(&str, i64) -> i64>(
    page: Page,
    viewport: Rect,
    m: Metrics,
    section: SectionModel,
    config: Config,
    measure: F,
)
    requires
        is_page(page, viewport, m, section, config, measure),
        page.wf(),
        window_near(viewport),
        page.cards.len() > 0,
    ensures
        page.title.bottom - page.title.top == 19_000 * m.dpi,
        page.title.top >= viewport.top,
        page.title.top <= viewport.top + 19_000 * m.dpi,
        page.title.left == viewport.left + 22_000 * m.dpi,
        section.description@.len() == 0 ==> page.cards[0].rect.top == page.title.bottom + 24_000
            * m.dpi,
        section.description@.len() > 0 ==> page.description.top == page.title.bottom + 8_000 * m.dpi
            && page.cards[0].rect.top == page.description.bottom + 16_000 * m.dpi,
{
    let c = columns(viewport, m);
    let first = first_card_top(page, viewport, m, section);
    assert(0 <= m.dpi <= 0xffff_ffff);
    assert(card_fits(page.cards, section, 0, config, m, c, first, measure));
    assert(page.cards[0].wf());
    if section.description@.len() > 0 {
        let h = choose|h: int| #[trigger]
            measured(measure, section.description, c.right - c.left, h) && page.description == rect(
                c.left,
                description_top(viewport, m),
                c.right,
                description_top(viewport, m) + h,
            );
    }
}

/// A card has fourteen units of padding round its rows, and eighteen more above them for a
/// title.
pub proof fn a_card_surrounds_its_rows<F: Fn(&str, i64) -> i64>(
    card: CardLayout,
    spec: CardModel,
    config: Config,
    m: Metrics,
    c: Columns,
    top: int,
    measure: F,
)
    requires
        is_card(card, spec, config, m, c, top, measure),
        card.wf(),
        card.rows.len() > 0,
        -0x0040_0000_0000_0000 <= top <= 0x0500_0000_0000_0000,
    ensures
        card.heading == spec.title,
        card.rect.top == top,
        spec.title is None ==> card.rows[0].rect.top == top + 14_000 * m.dpi,
        spec.title is Some ==> card.rows[0].rect.top == top + 32_000 * m.dpi,
        card.rect.bottom == card.rows.last().rect.bottom + 14_000 * m.dpi,
{
    let fields = shown_fields(spec.fields, config);
    let inner = card_inner(spec, m, top);
    assert(0 <= m.dpi <= 0xffff_ffff);
    assert(row_fits(card.rows, fields, 0, m, c, inner, measure));
    assert(card.rows[0].wf());
    assert(card.rows[card.rows.len() - 1].wf());
}

/// The rows of a page are those of its cards, card after card from the top, each card's in their
/// order.
pub proof fn rows_go_from_top_to_bottom(cards: Seq<CardLayout>, card: CardLayout, i: int)
    ensures
        rows_of(cards.push(card)).len() == rows_of(cards).len() + card.rows.len(),
        0 <= i < rows_of(cards).len() ==> rows_of(cards.push(card))[i] == rows_of(cards)[i],
        0 <= i < card.rows.len() ==> rows_of(cards.push(card))[rows_of(cards).len() + i]
            == card.rows[i],
        rows_of(Seq::empty()).len() == 0,
{
    assert(cards.push(card).drop_last() =~= cards);
}

/// A row is found only inside the viewport of the layout, and holds the point.
pub proof fn a_layout_finds_what_can_be_seen(layout: Layout, x: int, y: int)
    ensures
        !layout.viewport.holds(x, y) ==> layout.row_index(x, y) is None,
        layout.row_index(x, y) matches Some(i) ==> 0 <= i < layout.content@.rows().len()
            && layout.content@.rows()[i].rect.holds(x, y),
        layout.viewport.holds(x, y) && layout.row_index(x, y) is None ==> forall|j: int|
            0 <= j < layout.content@.rows().len() ==> !(
            #[trigger] layout.content@.rows()[j]).rect.holds(x, y),
{
    a_hit_row_holds_the_point(layout.content@.rows(), x, y);
}

} // verus!
