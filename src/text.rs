//! Chat text components: the named colours and their RGB values, and the
//! rendering of legacy `§` formatting codes as ANSI terminal escapes.
use crate::supervisor::{decimal, u16_to_string};
use vstd::prelude::*;
use vstd::string::{StrSliceExecFns, StringExecFns};

verus! {

/// A chat colour: a named one or an RGB value.
#[derive(Debug, Clone, Copy, PartialEq, Eq, Structural)]
pub enum Color {
    Hex(u32),
    Black,
    DarkBlue,
    DarkGreen,
    DarkAqua,
    DarkRed,
    DarkPurple,
    Gold,
    Gray,
    DarkGray,
    Blue,
    Green,
    Aqua,
    Red,
    LightPurple,
    Yellow,
    White,
}

/// A text component: a plain string or an object with styling.
#[derive(Debug)]
pub enum TextComponent {
    String(String),
    Object(Object),
}

/// A styled text component.
#[derive(Debug)]
pub struct Object {
    pub text: Option<String>,
    pub color: Option<Color>,
    pub font: Option<String>,
    pub bold: Option<bool>,
    pub italic: Option<bool>,
    pub underlined: Option<bool>,
    pub strikethrough: Option<bool>,
    pub obfuscated: Option<bool>,
    pub extra: Option<Vec<TextComponent>>,
}

/// The RGB value of a colour, as the game draws the named ones.
pub open spec fn rgb_of(c: Color) -> u32 {
    match c {
        Color::Hex(hex) => hex,
        Color::Black => 0x000000,
        Color::DarkBlue => 0x0000AA,
        Color::DarkGreen => 0x00AA00,
        Color::DarkAqua => 0x00AAAA,
        Color::DarkRed => 0xAA0000,
        Color::DarkPurple => 0xAA00AA,
        Color::Gold => 0xFFAA00,
        Color::Gray => 0xAAAAAA,
        Color::DarkGray => 0x555555,
        Color::Blue => 0x5555FF,
        Color::Green => 0x55FF55,
        Color::Aqua => 0x55FFFF,
        Color::Red => 0xFF5555,
        Color::LightPurple => 0xFF55FF,
        Color::Yellow => 0xFFFF55,
        Color::White => 0xFFFFFF,
    }
}

impl Color {
    /// The RGB value of this colour.
    pub fn to_rgb(self) -> (r: u32)
        ensures
            r == rgb_of(self),
    {
        match self {
            Color::Hex(hex) => hex,
            Color::Black => 0x000000,
            Color::DarkBlue => 0x0000AA,
            Color::DarkGreen => 0x00AA00,
            Color::DarkAqua => 0x00AAAA,
            Color::DarkRed => 0xAA0000,
            Color::DarkPurple => 0xAA00AA,
            Color::Gold => 0xFFAA00,
            Color::Gray => 0xAAAAAA,
            Color::DarkGray => 0x555555,
            Color::Blue => 0x5555FF,
            Color::Green => 0x55FF55,
            Color::Aqua => 0x55FFFF,
            Color::Red => 0xFF5555,
            Color::LightPurple => 0xFF55FF,
            Color::Yellow => 0xFFFF55,
            Color::White => 0xFFFFFF,
        }
    }
}

/// The styling in force while text is rendered.
#[derive(Debug, Clone, Copy, PartialEq, Eq, Structural)]
pub struct Style {
    pub color: Option<Color>,
    pub bold: bool,
    pub italic: bool,
    pub underlined: bool,
    pub strikethrough: bool,
    pub obfuscated: bool,
}

/// No colour and no decoration.
pub open spec fn plain_style() -> Style {
    Style { color: None, bold: false, italic: false, underlined: false, strikethrough: false, obfuscated: false }
}

/// The style after the legacy formatting code `c` (the character after `§`):
/// a colour digit or letter sets the colour, `k` to `o` switch a decoration
/// on, `r` resets, anything else changes nothing.
pub open spec fn apply_code(st: Style, c: char) -> Style {
    if c == '0' { Style { color: Some(Color::Black), ..st } }
    else if c == '1' { Style { color: Some(Color::DarkBlue), ..st } }
    else if c == '2' { Style { color: Some(Color::DarkGreen), ..st } }
    else if c == '3' { Style { color: Some(Color::DarkAqua), ..st } }
    else if c == '4' { Style { color: Some(Color::DarkRed), ..st } }
    else if c == '5' { Style { color: Some(Color::DarkPurple), ..st } }
    else if c == '6' { Style { color: Some(Color::Gold), ..st } }
    else if c == '7' { Style { color: Some(Color::Gray), ..st } }
    else if c == '8' { Style { color: Some(Color::DarkGray), ..st } }
    else if c == '9' { Style { color: Some(Color::Blue), ..st } }
    else if c == 'a' { Style { color: Some(Color::Green), ..st } }
    else if c == 'b' { Style { color: Some(Color::Aqua), ..st } }
    else if c == 'c' { Style { color: Some(Color::Red), ..st } }
    else if c == 'd' { Style { color: Some(Color::LightPurple), ..st } }
    else if c == 'e' { Style { color: Some(Color::Yellow), ..st } }
    else if c == 'f' { Style { color: Some(Color::White), ..st } }
    else if c == 'k' { Style { obfuscated: true, ..st } }
    else if c == 'l' { Style { bold: true, ..st } }
    else if c == 'm' { Style { strikethrough: true, ..st } }
    else if c == 'n' { Style { underlined: true, ..st } }
    else if c == 'o' { Style { italic: true, ..st } }
    else if c == 'r' { plain_style() }
    else { st }
}

/// The style after a formatting code.
pub fn apply_format_code(st: Style, c: char) -> (r: Style)
    ensures
        r == apply_code(st, c),
{
    match c {
        '0' => Style { color: Some(Color::Black), ..st },
        '1' => Style { color: Some(Color::DarkBlue), ..st },
        '2' => Style { color: Some(Color::DarkGreen), ..st },
        '3' => Style { color: Some(Color::DarkAqua), ..st },
        '4' => Style { color: Some(Color::DarkRed), ..st },
        '5' => Style { color: Some(Color::DarkPurple), ..st },
        '6' => Style { color: Some(Color::Gold), ..st },
        '7' => Style { color: Some(Color::Gray), ..st },
        '8' => Style { color: Some(Color::DarkGray), ..st },
        '9' => Style { color: Some(Color::Blue), ..st },
        'a' => Style { color: Some(Color::Green), ..st },
        'b' => Style { color: Some(Color::Aqua), ..st },
        'c' => Style { color: Some(Color::Red), ..st },
        'd' => Style { color: Some(Color::LightPurple), ..st },
        'e' => Style { color: Some(Color::Yellow), ..st },
        'f' => Style { color: Some(Color::White), ..st },
        'k' => Style { obfuscated: true, ..st },
        'l' => Style { bold: true, ..st },
        'm' => Style { strikethrough: true, ..st },
        'n' => Style { underlined: true, ..st },
        'o' => Style { italic: true, ..st },
        'r' => Style { color: None, bold: false, italic: false, underlined: false, strikethrough: false, obfuscated: false },
        _ => st,
    }
}

/// The style of a component: the inherited one, with each field the object sets overriding it.
pub open spec fn object_style(st: Style, o: Object) -> Style {
    Style {
        color: match o.color { Some(c) => Some(c), None => st.color },
        bold: match o.bold { Some(b) => b, None => st.bold },
        italic: match o.italic { Some(b) => b, None => st.italic },
        underlined: match o.underlined { Some(b) => b, None => st.underlined },
        strikethrough: match o.strikethrough { Some(b) => b, None => st.strikethrough },
        obfuscated: match o.obfuscated { Some(b) => b, None => st.obfuscated },
    }
}

impl Object {
    /// The style of this object's text given the inherited style.
    pub fn style_over(&self, st: Style) -> (r: Style)
        ensures
            r == object_style(st, *self),
    {
        Style {
            color: match self.color { Some(c) => Some(c), None => st.color },
            bold: match self.bold { Some(b) => b, None => st.bold },
            italic: match self.italic { Some(b) => b, None => st.italic },
            underlined: match self.underlined { Some(b) => b, None => st.underlined },
            strikethrough: match self.strikethrough { Some(b) => b, None => st.strikethrough },
            obfuscated: match self.obfuscated { Some(b) => b, None => st.obfuscated },
        }
    }
}

/// The escape that selects a 24-bit foreground colour.
pub open spec fn color_escape(rgb: u32) -> Seq<char> {
    "\x1b[38;2;"@ + decimal(((rgb >> 16u32) & 0xff) as nat) + ";"@ + decimal(((rgb >> 8u32) & 0xff) as nat) + ";"@ + decimal((rgb & 0xff) as nat) + "m"@
}

/// The colour escape of a style, if it has a colour.
#[verifier::opaque]
pub open spec fn color_escapes(color: Option<Color>) -> Seq<char> {
    match color {
        Some(c) => color_escape(rgb_of(c)),
        None => Seq::empty(),
    }
}

/// `e` where `on`, else nothing.
#[verifier::opaque]
pub open spec fn escape_if(on: bool, e: Seq<char>) -> Seq<char> {
    if on {
        e
    } else {
        Seq::empty()
    }
}

/// The escapes that put `st` in force: colour, then bold, italic,
/// underline, strikethrough and hidden, each where set.
pub open spec fn style_escapes(st: Style) -> Seq<char> {
    color_escapes(st.color) + escape_if(st.bold, "\x1b[1m"@) + escape_if(st.italic, "\x1b[3m"@)
        + escape_if(st.underlined, "\x1b[4m"@) + escape_if(st.strikethrough, "\x1b[9m"@)
        + escape_if(st.obfuscated, "\x1b[8m"@)
}

/// A run of text in a style: the escapes, the text, then a reset.
pub open spec fn styled_run(text: Seq<char>, st: Style) -> Seq<char> {
    style_escapes(st) + text + "\x1b[0m"@
}

/// A run, or nothing for empty text.
pub open spec fn emit(text: Seq<char>, st: Style) -> Seq<char> {
    if text.len() > 0 {
        styled_run(text, st)
    } else {
        Seq::empty()
    }
}

/// The rendering of `s` with legacy codes, `pending` being the text read so
/// far in style `st`; gives the output and the style in force at the end.
/// A `§` with no code after it is dropped.
pub open spec fn render_legacy(s: Seq<char>, st: Style, pending: Seq<char>) -> (Seq<char>, Style)
    decreases s.len(),
{
    if s.len() == 0 {
        (emit(pending, st), st)
    } else if s[0] == '§' {
        if s.len() == 1 {
            (emit(pending, st), st)
        } else {
            let (rest, end) = render_legacy(s.skip(2), apply_code(st, s[1]), Seq::empty());
            (emit(pending, st) + rest, end)
        }
    } else {
        render_legacy(s.skip(1), st, pending.push(s[0]))
    }
}

fn push_escape(out: &mut String, on: bool, escape: &str)
    ensures
        final(out)@ == old(out)@ + escape_if(on, escape@),
{
    reveal(escape_if);
    if on {
        out.append(escape);
    } else {
        assert(out@ =~= old(out)@ + Seq::<char>::empty());
    }
}

fn push_color(out: &mut String, rgb: u32)
    ensures
        final(out)@ == old(out)@ + color_escape(rgb),
{
    let r = ((rgb >> 16u32) & 0xff) as u16;
    let g = ((rgb >> 8u32) & 0xff) as u16;
    let b = (rgb & 0xff) as u16;
    assert(r as nat == ((rgb >> 16u32) & 0xff) as nat && g as nat == ((rgb >> 8u32) & 0xff) as nat && b as nat == (rgb & 0xff) as nat) by (bit_vector)
        requires
            r == ((rgb >> 16u32) & 0xff) as u16,
            g == ((rgb >> 8u32) & 0xff) as u16,
            b == (rgb & 0xff) as u16,
    ;
    out.append("\x1b[38;2;");
    out.append(u16_to_string(r).as_str());
    out.append(";");
    out.append(u16_to_string(g).as_str());
    out.append(";");
    out.append(u16_to_string(b).as_str());
    out.append("m");
    assert(out@ =~= old(out)@ + color_escape(rgb));
}

/// Appends `text` in style `st`: the escapes, the text, a reset.
fn push_styled(out: &mut String, text: &str, st: Style)
    ensures
        final(out)@ == old(out)@ + styled_run(text@, st),
{
    reveal(color_escapes);
    match st.color {
        Some(c) => push_color(out, c.to_rgb()),
        None => {
            assert(out@ =~= old(out)@ + color_escapes(st.color));
        },
    }
    let ghost o1 = out@;
    push_escape(out, st.bold, "\x1b[1m");
    let ghost o2 = out@;
    push_escape(out, st.italic, "\x1b[3m");
    let ghost o3 = out@;
    push_escape(out, st.underlined, "\x1b[4m");
    let ghost o4 = out@;
    push_escape(out, st.strikethrough, "\x1b[9m");
    let ghost o5 = out@;
    push_escape(out, st.obfuscated, "\x1b[8m");
    let ghost o6 = out@;
    out.append(text);
    out.append("\x1b[0m");
    assert(o1 == old(out)@ + color_escapes(st.color));
    assert(o6 =~= old(out)@ + style_escapes(st));
    assert(out@ =~= old(out)@ + styled_run(text@, st));
}

/// Renders `text` with its legacy `§` codes as ANSI escapes, starting in
/// style `st`; gives the output and the style in force after the text.
pub fn render_legacy_text(text: &str, st: Style) -> (r: (String, Style))
    ensures
        (r.0@, r.1) == render_legacy(text@, st, Seq::empty()),
{
    let n = text.unicode_len();
    let mut out = String::new();
    let mut style = st;
    let mut start: usize = 0;
    let mut i: usize = 0;
    proof {
        assert(text@.skip(0) =~= text@);
        assert(text@.subrange(0, 0) =~= Seq::<char>::empty());
    }
    while i < n
        invariant
            n == text@.len(),
            start <= i <= n,
            ({
                let (rest, end) = render_legacy(text@.skip(i as int), style, text@.subrange(start as int, i as int));
                (out@ + rest, end) == render_legacy(text@, st, Seq::empty())
            }),
        decreases n - i,
    {
        let c = text.get_char(i);
        let ghost pending = text@.subrange(start as int, i as int);
        if c == '§' {
            if start < i {
                let seg = text.substring_char(start, i);
                push_styled(&mut out, seg, style);
            } else {
                assert(pending.len() == 0);
            }
            if i + 1 >= n {
                proof {
                    assert(text@.skip(i as int).len() == 1);
                }
                assert(text@.skip(n as int) =~= Seq::<char>::empty());
                return (out, style);
            }
            let code = text.get_char(i + 1);
            style = apply_format_code(style, code);
            assert(text@.skip(i as int).skip(2) =~= text@.skip(i + 2));
            assert(text@.subrange(i + 2, i + 2) =~= Seq::<char>::empty());
            i = i + 2;
            start = i;
        } else {
            assert(text@.skip(i as int).skip(1) =~= text@.skip(i + 1));
            assert(pending.push(c) =~= text@.subrange(start as int, i + 1));
            i = i + 1;
        }
    }
    if start < n {
        let seg = text.substring_char(start, n);
        push_styled(&mut out, seg, style);
    }
    assert(text@.skip(n as int) =~= Seq::<char>::empty());
    (out, style)
}

/// The text of an object, empty where it has none.
pub open spec fn object_text(o: Object) -> Seq<char> {
    match o.text {
        Some(t) => t@,
        None => Seq::empty(),
    }
}

/// The plain text of a component: its text, then its children's in order.
pub open spec fn plain_of(c: TextComponent) -> Seq<char>
    decreases c,
{
    match c {
        TextComponent::String(s) => s@,
        TextComponent::Object(o) => object_text(o) + match o.extra {
            Some(v) => plain_of_all(v@),
            None => Seq::empty(),
        },
    }
}

/// The plain text of components in order.
pub open spec fn plain_of_all(cs: Seq<TextComponent>) -> Seq<char>
    decreases cs,
{
    if cs.len() == 0 {
        Seq::empty()
    } else {
        plain_of_all(cs.drop_last()) + plain_of(cs.last())
    }
}

/// The terminal rendering of a component in inherited style `st`: its own
/// style over `st`, its text with legacy codes, then each child in the style
/// in force after that text.
pub open spec fn formatted_of(c: TextComponent, st: Style) -> Seq<char>
    decreases c,
{
    match c {
        TextComponent::String(s) => render_legacy(s@, st, Seq::empty()).0,
        TextComponent::Object(o) => {
            let (head, after) = render_legacy(object_text(o), object_style(st, o), Seq::empty());
            head + match o.extra {
                Some(v) => formatted_of_all(v@, after),
                None => Seq::empty(),
            }
        },
    }
}

/// The renderings of components in order, each in style `st`.
pub open spec fn formatted_of_all(cs: Seq<TextComponent>, st: Style) -> Seq<char>
    decreases cs,
{
    if cs.len() == 0 {
        Seq::empty()
    } else {
        formatted_of_all(cs.drop_last(), st) + formatted_of(cs.last(), st)
    }
}

impl TextComponent {
    /// The plain text of this component and its children, without styling.
    pub fn print(&self) -> (r: String)
        ensures
            r@ == plain_of(*self),
        decreases self,
    {
        match self {
            TextComponent::String(s) => s.clone(),
            TextComponent::Object(o) => {
                let mut out = match &o.text {
                    Some(t) => t.clone(),
                    None => String::new(),
                };
                match &o.extra {
                    Some(v) => {
                        let mut i: usize = 0;
                        assert(v@.subrange(0, 0) =~= Seq::<TextComponent>::empty());
                        while i < v.len()
                            invariant
                                *self == TextComponent::Object(*o),
                                o.extra == Some(*v),
                                i <= v@.len(),
                                out@ == object_text(*o) + plain_of_all(v@.subrange(0, i as int)),
                            decreases v@.len() - i,
                        {
                            assert(decreases_to!(*self => self->Object_0));
                            assert(decreases_to!(*o => o.extra));
                            assert(decreases_to!(o.extra => o.extra->Some_0));
                            assert(decreases_to!(*v => v@));
                            assert(decreases_to!(v@ => v@[i as int]));
                            let part = v[i].print();
                            out.append(part.as_str());
                            assert(v@.subrange(0, i + 1).drop_last() =~= v@.subrange(0, i as int));
                            i = i + 1;
                        }
                        assert(v@.subrange(0, i as int) =~= v@);
                    },
                    None => {
                        assert(out@ =~= object_text(*o) + Seq::<char>::empty());
                    },
                }
                out
            },
        }
    }

    /// This component rendered for a terminal: legacy `§` codes and the
    /// objects' styling become ANSI escapes.
    pub fn print_formatted(&self) -> (r: String)
        ensures
            r@ == formatted_of(*self, plain_style()),
    {
        self.render_formatted(Style { color: None, bold: false, italic: false, underlined: false, strikethrough: false, obfuscated: false })
    }

    /// This component rendered for a terminal in inherited style `st`.
    pub fn render_formatted(&self, st: Style) -> (r: String)
        ensures
            r@ == formatted_of(*self, st),
        decreases self,
    {
        match self {
            TextComponent::String(s) => render_legacy_text(s.as_str(), st).0,
            TextComponent::Object(o) => {
                let own = o.style_over(st);
                let (mut out, after) = match &o.text {
                    Some(t) => render_legacy_text(t.as_str(), own),
                    None => render_legacy_text("", own),
                };
                proof {
                    if o.text is None {
                        reveal_strlit("");
                        assert(""@ =~= object_text(*o));
                    }
                }
                match &o.extra {
                    Some(v) => {
                        let mut i: usize = 0;
                        assert(v@.subrange(0, 0) =~= Seq::<TextComponent>::empty());
                        while i < v.len()
                            invariant
                                *self == TextComponent::Object(*o),
                                o.extra == Some(*v),
                                i <= v@.len(),
                                out@ == render_legacy(object_text(*o), object_style(st, *o), Seq::empty()).0 + formatted_of_all(v@.subrange(0, i as int), after),
                                after == render_legacy(object_text(*o), object_style(st, *o), Seq::empty()).1,
                            decreases v@.len() - i,
                        {
                            assert(decreases_to!(*self => self->Object_0));
                            assert(decreases_to!(*o => o.extra));
                            assert(decreases_to!(o.extra => o.extra->Some_0));
                            assert(decreases_to!(*v => v@));
                            assert(decreases_to!(v@ => v@[i as int]));
                            let part = v[i].render_formatted(after);
                            out.append(part.as_str());
                            assert(v@.subrange(0, i + 1).drop_last() =~= v@.subrange(0, i as int));
                            i = i + 1;
                        }
                        assert(v@.subrange(0, i as int) =~= v@);
                    },
                    None => {
                        assert(out@ =~= out@ + Seq::<char>::empty());
                    },
                }
                out
            },
        }
    }
}

} // verus!
