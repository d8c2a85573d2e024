//! The style interpreter: turns chunks of text with terminal colour codes
//! into styled fragments, carrying the colour state from one chunk to the
//! next.

use crate::colors::{default_text_color, default_text_color_spec, palette, palette_color, Color};
use ansi_parser::{AnsiParser, AnsiSequence, Output};
use vstd::prelude::*;

verus! {

/// One piece of a chunk as the escape-sequence parser splits it.
#[derive(Debug, PartialEq, Eq)]
pub enum AnsiBlock {
    /// Literal text.
    Text(String),
    /// A "set graphics mode" sequence with its numeric parameters.
    Graphics(Vec<u8>),
    /// Any other escape sequence (cursor movement and the like).
    Control,
}

/// The blocks into which the escape-sequence parser splits a text.
pub uninterp spec fn ansi_blocks(text: Seq<char>) -> Seq<AnsiBlock>;

/// The escape character that opens every control sequence.
pub open spec fn has_escape(text: Seq<char>) -> bool {
    text.contains('\u{1b}')
}

/// Relies on ansi_parser's `AnsiParser::ansi_parse` to split a text into
/// literal text and escape sequences, in order. Its source yields a text
/// without an escape character as one text block, and nothing for an
/// empty text.
#[verifier::external_body]
fn parse_blocks(text: &str) -> (r: Vec<AnsiBlock>)
    ensures
        r@ == ansi_blocks(text@),
        !has_escape(text@) && text@.len() == 0 ==> r@.len() == 0,
        !has_escape(text@) && text@.len() > 0 ==> r@.len() == 1 && r@[0] is Text
            && r@[0]->Text_0@ == text@,
{
    let mut blocks = Vec::new();
    for block in text.ansi_parse() {
        blocks.push(
            match block {
                Output::TextBlock(t) => AnsiBlock::Text(t.to_string()),
                Output::Escape(AnsiSequence::SetGraphicsMode(params)) => AnsiBlock::Graphics(
                    params.to_vec(),
                ),
                Output::Escape(_) => AnsiBlock::Control,
            },
        );
    }
    blocks
}

/// The colours that one graphics sequence selects.
#[derive(Clone, Copy, Debug, PartialEq, Eq, Structural)]
pub struct ColorSet {
    pub text_color: Option<Color>,
    pub background_color: Option<Color>,
    /// The sequence asked for a full reset.
    pub is_reset: bool,
}

/// A colour set that selects nothing.
pub open spec fn no_colors() -> ColorSet {
    ColorSet { text_color: None, background_color: None, is_reset: false }
}

/// The colour set of a full reset.
pub open spec fn reset_colors() -> ColorSet {
    ColorSet { text_color: None, background_color: None, is_reset: true }
}

/// The effect of one parameter other than zero: 30-37 and 90-97 select a
/// normal or bright text colour, 40-47 and 100-107 a background colour;
/// any other value has no effect.
pub open spec fn apply_param(cs: ColorSet, p: u8) -> ColorSet {
    if 30 <= p <= 37 {
        ColorSet { text_color: Some(palette((p - 30) as nat, false)), ..cs }
    } else if 90 <= p <= 97 {
        ColorSet { text_color: Some(palette((p - 90) as nat, true)), ..cs }
    } else if 40 <= p <= 47 {
        ColorSet { background_color: Some(palette((p - 40) as nat, false)), ..cs }
    } else if 100 <= p <= 107 {
        ColorSet { background_color: Some(palette((p - 100) as nat, true)), ..cs }
    } else {
        cs
    }
}

/// The colour set that `params` select, read from the left, starting from
/// `cs`. A zero is a full reset and ends the reading.
pub open spec fn colorset_of(cs: ColorSet, params: Seq<u8>) -> ColorSet
    decreases params.len(),
{
    if params.len() == 0 {
        cs
    } else if params[0] == 0 {
        reset_colors()
    } else {
        colorset_of(apply_param(cs, params[0]), params.drop_first())
    }
}

/// Reads the parameters of one graphics sequence.
pub fn parse_to_colorset(graphics_param: Vec<u8>) -> (r: ColorSet)
    ensures
        r == colorset_of(no_colors(), graphics_param@),
{
    let mut color_set = ColorSet { text_color: None, background_color: None, is_reset: false };
    let mut i: usize = 0;
    assert(graphics_param@.subrange(0, graphics_param@.len() as int) =~= graphics_param@);
    while i < graphics_param.len()
        invariant
            i <= graphics_param@.len(),
            colorset_of(color_set, graphics_param@.subrange(i as int, graphics_param@.len() as int))
                == colorset_of(no_colors(), graphics_param@),
        decreases graphics_param@.len() - i,
    {
        let ghost rest = graphics_param@.subrange(i as int, graphics_param@.len() as int);
        assert(rest.drop_first() =~= graphics_param@.subrange(
            i + 1,
            graphics_param@.len() as int,
        ));
        let param = graphics_param[i];
        if param == 0 {
            return ColorSet { text_color: None, background_color: None, is_reset: true };
        }
        if 30 <= param && param <= 37 {
            color_set.text_color = Some(palette_color(param - 30, false));
        } else if 90 <= param && param <= 97 {
            color_set.text_color = Some(palette_color(param - 90, true));
        } else if 40 <= param && param <= 47 {
            color_set.background_color = Some(palette_color(param - 40, false));
        } else if 100 <= param && param <= 107 {
            color_set.background_color = Some(palette_color(param - 100, true));
        }
        i = i + 1;
    }
    assert(graphics_param@.subrange(i as int, graphics_param@.len() as int) =~= Seq::empty());
    color_set
}

/// The carried colours: text colour and background colour.
pub type Colors = (Option<Color>, Option<Color>);

/// `chosen` where it is set, else `carried`.
pub open spec fn or_carried(chosen: Option<Color>, carried: Option<Color>) -> Option<Color> {
    if chosen is Some {
        chosen
    } else {
        carried
    }
}

/// The carried colours after one block.
pub open spec fn next_colors(carried: Colors, block: AnsiBlock) -> Colors {
    match block {
        AnsiBlock::Graphics(params) => {
            let cs = colorset_of(no_colors(), params@);
            if cs.is_reset {
                (None, None)
            } else {
                (or_carried(cs.text_color, carried.0), or_carried(cs.background_color, carried.1))
            }
        },
        _ => carried,
    }
}

/// A run of text with the colours that apply to it.
#[derive(Debug, PartialEq, Eq)]
pub struct StyledText {
    pub text: String,
    pub color: Color,
    pub background_color: Option<Color>,
}

/// The text colour that the carried colours give: the default where none
/// is carried.
pub open spec fn resolved_color(carried: Colors) -> Color {
    match carried.0 {
        Some(c) => c,
        None => default_text_color_spec(),
    }
}

/// What one block emits: a non-empty text block becomes one fragment in the
/// carried colours; other blocks emit nothing.
pub open spec fn fragment_of(carried: Colors, block: AnsiBlock) -> Seq<StyledText> {
    match block {
        AnsiBlock::Text(t) => if t@.len() > 0 {
            seq![StyledText { text: t, color: resolved_color(carried), background_color: carried.1 }]
        } else {
            seq![]
        },
        _ => seq![],
    }
}

/// The carried colours after a sequence of blocks.
pub open spec fn colors_after(carried: Colors, blocks: Seq<AnsiBlock>) -> Colors
    decreases blocks.len(),
{
    if blocks.len() == 0 {
        carried
    } else {
        next_colors(colors_after(carried, blocks.drop_last()), blocks.last())
    }
}

/// The fragments that a sequence of blocks emits, starting from `carried`.
pub open spec fn styled(carried: Colors, blocks: Seq<AnsiBlock>) -> Seq<StyledText>
    decreases blocks.len(),
{
    if blocks.len() == 0 {
        seq![]
    } else {
        styled(carried, blocks.drop_last()) + fragment_of(
            colors_after(carried, blocks.drop_last()),
            blocks.last(),
        )
    }
}

/// The interpreter, with the colours it carries between chunks.
pub struct AnsiFormatter {
    color_set: ColorSet,
}

impl View for AnsiFormatter {
    type V = Colors;

    closed spec fn view(&self) -> Colors {
        (self.color_set.text_color, self.color_set.background_color)
    }
}

impl Default for AnsiFormatter {
    fn default() -> (r: Self)
        ensures
            r@ == (None::<Color>, None::<Color>),
    {
        AnsiFormatter {
            color_set: ColorSet { text_color: None, background_color: None, is_reset: false },
        }
    }
}

impl AnsiFormatter {
    /// Styles a sequence of parsed blocks, updating the carried colours.
    pub fn format_blocks(&mut self, blocks: &Vec<AnsiBlock>) -> (r: Vec<StyledText>)
        ensures
            r@ == styled(old(self)@, blocks@),
            final(self)@ == colors_after(old(self)@, blocks@),
    {
        let mut rich_texts: Vec<StyledText> = Vec::new();
        let mut i: usize = 0;
        while i < blocks.len()
            invariant
                i <= blocks@.len(),
                rich_texts@ == styled(old(self)@, blocks@.take(i as int)),
                self@ == colors_after(old(self)@, blocks@.take(i as int)),
            decreases blocks@.len() - i,
        {
            let ghost before = self@;
            assert(blocks@.take(i + 1).drop_last() =~= blocks@.take(i as int));
            assert(blocks@.take(i + 1).last() == blocks@[i as int]);
            match &blocks[i] {
                AnsiBlock::Text(t) => {
                    if t.as_str().unicode_len() > 0 {
                        let color = match self.color_set.text_color {
                            Some(c) => c,
                            None => default_text_color(),
                        };
                        rich_texts.push(
                            StyledText {
                                text: t.clone(),
                                color,
                                background_color: self.color_set.background_color,
                            },
                        );
                    }
                },
                AnsiBlock::Graphics(params) => {
                    let updated = parse_to_colorset(params.clone());
                    if updated.is_reset {
                        self.color_set = ColorSet {
                            text_color: None,
                            background_color: None,
                            is_reset: false,
                        };
                    } else {
                        if updated.text_color.is_some() {
                            self.color_set.text_color = updated.text_color;
                        }
                        if updated.background_color.is_some() {
                            self.color_set.background_color = updated.background_color;
                        }
                    }
                },
                AnsiBlock::Control => {},
            }
            assert(rich_texts@ =~= styled(old(self)@, blocks@.take(i + 1)));
            i = i + 1;
        }
        assert(blocks@.take(i as int) =~= blocks@);
        rich_texts
    }

    /// Styles one chunk of text, updating the carried colours.
    pub fn to_rich_text(&mut self, text: &String) -> (r: Vec<StyledText>)
        ensures
            r@ == styled(old(self)@, ansi_blocks(text@)),
            final(self)@ == colors_after(old(self)@, ansi_blocks(text@)),
            !has_escape(text@) ==> final(self)@ == old(self)@,
            !has_escape(text@) && text@.len() > 0 ==> r@.len() == 1 && r@[0].text@ == text@
                && r@[0].color == resolved_color(old(self)@) && r@[0].background_color == old(
                self,
            )@.1,
    {
        let blocks = parse_blocks(text.as_str());
        proof {
            if !has_escape(text@) && text@.len() > 0 {
                reveal_with_fuel(styled, 2);
                reveal_with_fuel(colors_after, 2);
                assert(blocks@.drop_last() =~= Seq::<AnsiBlock>::empty());
            }
        }
        self.format_blocks(&blocks)
    }

    /// Forgets the carried colours.
    pub fn reset(&mut self)
        ensures
            final(self)@ == (None::<Color>, None::<Color>),
    {
        self.color_set = ColorSet { text_color: None, background_color: None, is_reset: false };
    }
}

/// Styling two sequences of blocks one after the other, carrying the
/// colours from the first into the second, gives the same fragments and the
/// same final colours as styling them as one sequence.
pub proof fn lemma_styling_splits(carried: Colors, first: Seq<AnsiBlock>, second: Seq<AnsiBlock>)
    ensures
        styled(carried, first + second) == styled(carried, first) + styled(
            colors_after(carried, first),
            second,
        ),
        colors_after(carried, first + second) == colors_after(
            colors_after(carried, first),
            second,
        ),
    decreases second.len(),
{
    if second.len() == 0 {
        assert(first + second =~= first);
        assert(styled(carried, first) + styled(colors_after(carried, first), second) =~= styled(
            carried,
            first,
        ));
    } else {
        lemma_styling_splits(carried, first, second.drop_last());
        assert((first + second).drop_last() =~= first + second.drop_last());
        assert((first + second).last() == second.last());
        assert(styled(carried, first + second) =~= styled(carried, first) + styled(
            colors_after(carried, first),
            second,
        ));
    }
}

/// Blocks without a graphics sequence keep the carried colours, and every
/// fragment they emit is in those colours.
pub proof fn lemma_colors_persist(carried: Colors, blocks: Seq<AnsiBlock>)
    requires
        forall|i: int| 0 <= i < blocks.len() ==> !(#[trigger] blocks[i] is Graphics),
    ensures
        colors_after(carried, blocks) == carried,
        forall|k: int|
            0 <= k < styled(carried, blocks).len() ==> (#[trigger] styled(carried, blocks)[k]).color
                == resolved_color(carried) && styled(carried, blocks)[k].background_color
                == carried.1,
    decreases blocks.len(),
{
    if blocks.len() > 0 {
        assert(forall|i: int|
            0 <= i < blocks.drop_last().len() ==> blocks.drop_last()[i] == blocks[i]);
        lemma_colors_persist(carried, blocks.drop_last());
        assert(!(blocks[blocks.len() - 1] is Graphics));
    }
}

} // verus!
