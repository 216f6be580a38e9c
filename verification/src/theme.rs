//! The shell's visual tokens, and the stylesheet that they make.
//!
//! The stylesheet overrides the toolkit's defaults wherever the shell shows
//! itself: the shell has a look of its own.

use crate::number;
use crate::number::Number;
use crate::text;
use vstd::prelude::*;

verus! {

/// A color with its opacity, as CSS writes it.
#[derive(Clone, Copy, Debug)]
pub struct Color {
    pub r: u8,
    pub g: u8,
    pub b: u8,
    pub a: Number,
}

/// The visual tokens.
#[derive(Clone, Copy, Debug)]
pub struct Theme {
    pub background: Color,
    pub surface: Color,
    pub elevated: Color,
    pub border: Color,
    pub text: Color,
    pub text_muted: Color,
    pub accent: Color,
    pub radius: Number,
    pub spacing: Number,
}

/// A color as a CSS color literal.
pub open spec fn color_text(c: Color) -> Seq<char> {
    "rgba("@ + text::decimal(c.r as nat) + ", "@ + text::decimal(c.g as nat) + ", "@
        + text::decimal(c.b as nat) + ", "@ + number::number_text(c.a@) + ")"@
}

/// Whether `c` is the opaque color with these channels.
pub open spec fn is_opaque(c: Color, r: u8, g: u8, b: u8) -> bool {
    c.r == r && c.g == g && c.b == b && c.a@ == number::whole(1)
}

/// The color with these channels and this opacity.
pub open spec fn color_of(r: u8, g: u8, b: u8, a: Number) -> Color {
    Color { r, g, b, a }
}

/// A line of a color around something, as CSS writes it.
pub open spec fn line_text(c: Color) -> Seq<char> {
    "1px solid "@ + color_text(c)
}

/// A length in pixels, as CSS writes it.
pub open spec fn pixels_text(n: Number) -> Seq<char> {
    number::number_text(n@) + "px"@
}

/// A padding of that many pixels on the left and on the right.
pub open spec fn sides_text(n: Number) -> Seq<char> {
    "0 "@ + pixels_text(n)
}

/// A property with its value.
pub struct Declared {
    pub property: Seq<char>,
    pub value: Seq<char>,
}

/// A selector with its declarations.
pub struct RuleModel {
    pub selector: Seq<char>,
    pub declarations: Seq<Declared>,
}

/// `value` declared for `property`.
pub open spec fn declared(property: Seq<char>, value: Seq<char>) -> Declared {
    Declared { property, value }
}

/// A declaration, on a line of its own.
pub open spec fn declaration_text(d: Declared) -> Seq<char> {
    "    "@ + d.property + ": "@ + d.value + ";\n"@
}

/// Declarations, one after the other.
pub open spec fn declarations_text(declarations: Seq<Declared>) -> Seq<char>
    decreases declarations.len(),
{
    if declarations.len() == 0 {
        Seq::empty()
    } else {
        declarations_text(declarations.drop_last()) + declaration_text(declarations.last())
    }
}

/// A rule, after an empty line.
pub open spec fn rule_text(r: RuleModel) -> Seq<char> {
    "\n"@ + r.selector + " {\n"@ + declarations_text(r.declarations) + "}\n"@
}

/// Rules, one after the other.
pub open spec fn rules_text(rules: Seq<RuleModel>) -> Seq<char>
    decreases rules.len(),
{
    if rules.len() == 0 {
        Seq::empty()
    } else {
        rules_text(rules.drop_last()) + rule_text(rules.last())
    }
}

/// The rule of `window`.
pub open spec fn window_rule(t: Theme) -> RuleModel {
    RuleModel {
        selector: "window"@,
        declarations: seq![
            declared("background-color"@, color_text(t.background)),
            declared("color"@, color_text(t.text)),
            declared("font-family"@, "sans-serif"@),
        ],
    }
}

/// The rule of `.shell-root`.
pub open spec fn shell_root_rule(t: Theme) -> RuleModel {
    RuleModel {
        selector: ".shell-root"@,
        declarations: seq![
            declared("background-color"@, color_text(t.background)),
        ],
    }
}

/// The rule of `.topbar`.
pub open spec fn topbar_rule(t: Theme) -> RuleModel {
    RuleModel {
        selector: ".topbar"@,
        declarations: seq![
            declared("background-color"@, color_text(t.surface)),
            declared("border-bottom"@, line_text(t.border)),
            declared("padding"@, sides_text(t.spacing)),
            declared("min-height"@, "38px"@),
        ],
    }
}

/// The rule of `.topbar-app-name`.
pub open spec fn topbar_app_name_rule(t: Theme) -> RuleModel {
    RuleModel {
        selector: ".topbar-app-name"@,
        declarations: seq![
            declared("color"@, color_text(t.text)),
            declared("font-weight"@, "700"@),
            declared("font-size"@, "13px"@),
            declared("margin-right"@, pixels_text(t.spacing)),
        ],
    }
}

/// The rule of `.topbar-project-name`.
pub open spec fn topbar_project_name_rule(t: Theme) -> RuleModel {
    RuleModel {
        selector: ".topbar-project-name"@,
        declarations: seq![
            declared("color"@, color_text(t.text_muted)),
            declared("font-size"@, "12px"@),
        ],
    }
}

/// The rule of `.win-btn`.
pub open spec fn win_btn_rule(t: Theme) -> RuleModel {
    RuleModel {
        selector: ".win-btn"@,
        declarations: seq![
            declared("background-color"@, "transparent"@),
            declared("background-image"@, "none"@),
            declared("border"@, "none"@),
            declared("box-shadow"@, "none"@),
            declared("color"@, color_text(t.text_muted)),
            declared("min-width"@, "28px"@),
            declared("min-height"@, "28px"@),
            declared("padding"@, "0"@),
            declared("border-radius"@, pixels_text(t.radius)),
        ],
    }
}

/// The rule of `.win-btn:hover`.
pub open spec fn win_btn_hover_rule(t: Theme) -> RuleModel {
    RuleModel {
        selector: ".win-btn:hover"@,
        declarations: seq![
            declared("background-color"@, color_text(t.elevated)),
            declared("color"@, color_text(t.text)),
        ],
    }
}

/// The rule of `.win-btn.close:hover`.
pub open spec fn win_btn_close_hover_rule(t: Theme) -> RuleModel {
    RuleModel {
        selector: ".win-btn.close:hover"@,
        declarations: seq![
            declared("background-color"@, "#e34b4b"@),
            declared("color"@, "#ffffff"@),
        ],
    }
}

/// The rule of `.content-area`.
pub open spec fn content_area_rule(t: Theme) -> RuleModel {
    RuleModel {
        selector: ".content-area"@,
        declarations: seq![
            declared("background-color"@, color_text(t.background)),
        ],
    }
}

/// The rule of `paned.content-area > separator`.
pub open spec fn paned_content_area_separator_rule(t: Theme) -> RuleModel {
    RuleModel {
        selector: "paned.content-area > separator"@,
        declarations: seq![
            declared("background-color"@, color_text(t.border)),
            declared("min-width"@, "1px"@),
            declared("min-height"@, "1px"@),
        ],
    }
}

/// The rule of `.pane-placeholder`.
pub open spec fn pane_placeholder_rule(t: Theme) -> RuleModel {
    RuleModel {
        selector: ".pane-placeholder"@,
        declarations: seq![
            declared("background-color"@, color_text(t.surface)),
            declared("color"@, color_text(t.text_muted)),
            declared("font-size"@, "12px"@),
        ],
    }
}

/// The rule of `.pane-placeholder.left`.
pub open spec fn pane_placeholder_left_rule(t: Theme) -> RuleModel {
    RuleModel {
        selector: ".pane-placeholder.left"@,
        declarations: seq![
            declared("background-color"@, color_text(t.background)),
        ],
    }
}

/// The rule of `.statusbar`.
pub open spec fn statusbar_rule(t: Theme) -> RuleModel {
    RuleModel {
        selector: ".statusbar"@,
        declarations: seq![
            declared("background-color"@, color_text(t.surface)),
            declared("border-top"@, line_text(t.border)),
            declared("padding"@, sides_text(t.spacing)),
            declared("min-height"@, "24px"@),
            declared("color"@, color_text(t.text_muted)),
            declared("font-size"@, "11px"@),
        ],
    }
}

/// The rule of `.statusbar-accent`.
pub open spec fn statusbar_accent_rule(t: Theme) -> RuleModel {
    RuleModel {
        selector: ".statusbar-accent"@,
        declarations: seq![
            declared("color"@, color_text(t.accent)),
        ],
    }
}

/// The rules of a theme's stylesheet.
pub open spec fn rules_of(t: Theme) -> Seq<RuleModel> {
    seq![
        window_rule(t),
        shell_root_rule(t),
        topbar_rule(t),
        topbar_app_name_rule(t),
        topbar_project_name_rule(t),
        win_btn_rule(t),
        win_btn_hover_rule(t),
        win_btn_close_hover_rule(t),
        content_area_rule(t),
        paned_content_area_separator_rule(t),
        pane_placeholder_rule(t),
        pane_placeholder_left_rule(t),
        statusbar_rule(t),
        statusbar_accent_rule(t),
    ]
}

/// The stylesheet of a theme.
pub open spec fn stylesheet(t: Theme) -> Seq<char> {
    rules_text(rules_of(t))
}

/// A property with its value, to be written.
struct Declaration {
    property: &'static str,
    value: String,
}

impl View for Declaration {
    type V = Declared;

    closed spec fn view(&self) -> Declared {
        declared(self.property@, self.value@)
    }
}

/// The declarations as mathematical values.
spec fn declared_all(declarations: Seq<Declaration>) -> Seq<Declared> {
    Seq::new(declarations.len(), |i: int| declarations[i]@)
}

/// A selector with its declarations, to be written.
struct Rule {
    selector: &'static str,
    declarations: Vec<Declaration>,
}

impl View for Rule {
    type V = RuleModel;

    closed spec fn view(&self) -> RuleModel {
        RuleModel { selector: self.selector@, declarations: declared_all(self.declarations@) }
    }
}

/// The rules as mathematical values.
spec fn models(rules: Seq<Rule>) -> Seq<RuleModel> {
    Seq::new(rules.len(), |i: int| rules[i]@)
}

/// `value` declared for `property`.
fn declare(property: &'static str, value: String) -> (d: Declaration)
    ensures
        d@ == declared(property@, value@),
{
    Declaration { property, value }
}

/// A line of a color around something.
fn line(c: Color) -> (value: String)
    ensures
        value@ == line_text(c),
{
    let mut value: String = "1px solid ".to_owned();
    value.append(&c.to_css());
    value
}

/// A length in pixels.
fn pixels(n: Number) -> (value: String)
    ensures
        value@ == pixels_text(n),
{
    let mut value: String = n.to_text();
    value.append("px");
    value
}

/// A padding of that many pixels on the left and on the right.
fn sides(n: Number) -> (value: String)
    ensures
        value@ == sides_text(n),
{
    let mut value: String = "0 ".to_owned();
    value.append(&pixels(n));
    value
}

/// Appends a declaration.
fn push_declaration(sheet: &mut String, d: &Declaration)
    ensures
        final(sheet)@ == old(sheet)@ + declaration_text(d@),
{
    sheet.append("    ");
    sheet.append(d.property);
    sheet.append(": ");
    sheet.append(&d.value);
    sheet.append(";\n");
    assert(sheet@ =~= old(sheet)@ + declaration_text(d@));
}

/// Appends a rule.
fn push_rule(sheet: &mut String, r: &Rule)
    ensures
        final(sheet)@ == old(sheet)@ + rule_text(r@),
{
    sheet.append("\n");
    sheet.append(r.selector);
    sheet.append(" {\n");
    let ghost head = sheet@;
    let ghost all = r@.declarations;
    let mut i: usize = 0;
    assert(all.take(0) =~= Seq::<Declared>::empty());
    assert(head =~= head + declarations_text(all.take(0)));
    while i < r.declarations.len()
        invariant
            i <= r.declarations.len(),
            all == declared_all(r.declarations@),
            sheet@ == head + declarations_text(all.take(i as int)),
        decreases r.declarations.len() - i,
    {
        push_declaration(sheet, &r.declarations[i]);
        proof {
            assert(all.take(i + 1).drop_last() =~= all.take(i as int));
            assert(sheet@ =~= head + declarations_text(all.take(i + 1)));
        }
        i = i + 1;
    }
    assert(all.take(i as int) =~= all);
    sheet.append("}\n");
    assert(sheet@ =~= old(sheet)@ + rule_text(r@));
}

impl Color {
    /// The opaque color with these channels.
    pub fn rgb(r: u8, g: u8, b: u8) -> (color: Self)
        ensures
            is_opaque(color, r, g, b),
    {
        Color { r, g, b, a: Number::whole(1) }
    }

    /// The color with these channels and this opacity.
    pub fn rgba(r: u8, g: u8, b: u8, a: Number) -> (color: Self)
        ensures
            color == (Color { r, g, b, a }),
            color == color_of(r, g, b, a),
    {
        Color { r, g, b, a }
    }

    /// The color as a CSS color literal, such as `rgba(30, 32, 38, 1)`.
    pub fn to_css(self) -> (css: String)
        ensures
            css@ == color_text(self),
    {
        let mut css: String = "rgba(".to_owned();
        text::push_decimal(&mut css, self.r as u128);
        css.append(", ");
        text::push_decimal(&mut css, self.g as u128);
        css.append(", ");
        text::push_decimal(&mut css, self.b as u128);
        css.append(", ");
        css.append(&self.a.to_text());
        css.append(")");
        css
    }
}

impl Theme {
    /// The dark palette.
    pub fn dark() -> (theme: Self)
        ensures
            is_opaque(theme.background, 0x1a, 0x1b, 0x1f),
            is_opaque(theme.surface, 0x22, 0x23, 0x29),
            is_opaque(theme.elevated, 0x2b, 0x2c, 0x34),
            is_opaque(theme.border, 0x38, 0x3a, 0x44),
            is_opaque(theme.text, 0xe6, 0xe6, 0xea),
            is_opaque(theme.text_muted, 0x8b, 0x8d, 0x98),
            is_opaque(theme.accent, 0x7c, 0xa9, 0xff),
            theme.radius@ == number::whole(6),
            theme.spacing@ == number::whole(8),
    {
        Theme {
            background: Color::rgb(0x1a, 0x1b, 0x1f),
            surface: Color::rgb(0x22, 0x23, 0x29),
            elevated: Color::rgb(0x2b, 0x2c, 0x34),
            border: Color::rgb(0x38, 0x3a, 0x44),
            text: Color::rgb(0xe6, 0xe6, 0xea),
            text_muted: Color::rgb(0x8b, 0x8d, 0x98),
            accent: Color::rgb(0x7c, 0xa9, 0xff),
            radius: Number::whole(6),
            spacing: Number::whole(8),
        }
    }

    /// The stylesheet of the theme.
    pub fn to_css(&self) -> (css: String)
        ensures
            css@ == stylesheet(*self),
    {
        let rules: Vec<Rule> = self.rules();
        let ghost all = models(rules@);
        let mut sheet: String = String::new();
        let mut i: usize = 0;
        assert(all.take(0) =~= Seq::<RuleModel>::empty());
        while i < rules.len()
            invariant
                i <= rules.len(),
                all == models(rules@),
                sheet@ == rules_text(all.take(i as int)),
            decreases rules.len() - i,
        {
            push_rule(&mut sheet, &rules[i]);
            assert(all.take(i + 1).drop_last() =~= all.take(i as int));
            i = i + 1;
        }
        assert(all.take(i as int) =~= all);
        sheet
    }

    /// The rules of the stylesheet.
    fn rules(&self) -> (rules: Vec<Rule>)
        ensures
            models(rules@) == rules_of(*self),
    {
        let rules: Vec<Rule> = vec![
            self.window_rule(),
            self.shell_root_rule(),
            self.topbar_rule(),
            self.topbar_app_name_rule(),
            self.topbar_project_name_rule(),
            self.win_btn_rule(),
            self.win_btn_hover_rule(),
            self.win_btn_close_hover_rule(),
            self.content_area_rule(),
            self.paned_content_area_separator_rule(),
            self.pane_placeholder_rule(),
            self.pane_placeholder_left_rule(),
            self.statusbar_rule(),
            self.statusbar_accent_rule(),
        ];
        assert(models(rules@) =~= rules_of(*self));
        rules
    }

    /// The rule of `window`.
    fn window_rule(&self) -> (r: Rule)
        ensures
            r@ == window_rule(*self),
    {
        let declarations: Vec<Declaration> = vec![
            declare("background-color", self.background.to_css()),
            declare("color", self.text.to_css()),
            declare("font-family", "sans-serif".to_owned()),
        ];
        assert(declared_all(declarations@) =~= window_rule(*self).declarations);
        Rule { selector: "window", declarations }
    }

    /// The rule of `.shell-root`.
    fn shell_root_rule(&self) -> (r: Rule)
        ensures
            r@ == shell_root_rule(*self),
    {
        let declarations: Vec<Declaration> = vec![
            declare("background-color", self.background.to_css()),
        ];
        assert(declared_all(declarations@) =~= shell_root_rule(*self).declarations);
        Rule { selector: ".shell-root", declarations }
    }

    /// The rule of `.topbar`.
    fn topbar_rule(&self) -> (r: Rule)
        ensures
            r@ == topbar_rule(*self),
    {
        let declarations: Vec<Declaration> = vec![
            declare("background-color", self.surface.to_css()),
            declare("border-bottom", line(self.border)),
            declare("padding", sides(self.spacing)),
            declare("min-height", "38px".to_owned()),
        ];
        assert(declared_all(declarations@) =~= topbar_rule(*self).declarations);
        Rule { selector: ".topbar", declarations }
    }

    /// The rule of `.topbar-app-name`.
    fn topbar_app_name_rule(&self) -> (r: Rule)
        ensures
            r@ == topbar_app_name_rule(*self),
    {
        let declarations: Vec<Declaration> = vec![
            declare("color", self.text.to_css()),
            declare("font-weight", "700".to_owned()),
            declare("font-size", "13px".to_owned()),
            declare("margin-right", pixels(self.spacing)),
        ];
        assert(declared_all(declarations@) =~= topbar_app_name_rule(*self).declarations);
        Rule { selector: ".topbar-app-name", declarations }
    }

    /// The rule of `.topbar-project-name`.
    fn topbar_project_name_rule(&self) -> (r: Rule)
        ensures
            r@ == topbar_project_name_rule(*self),
    {
        let declarations: Vec<Declaration> = vec![
            declare("color", self.text_muted.to_css()),
            declare("font-size", "12px".to_owned()),
        ];
        assert(declared_all(declarations@) =~= topbar_project_name_rule(*self).declarations);
        Rule { selector: ".topbar-project-name", declarations }
    }

    /// The rule of `.win-btn`.
    fn win_btn_rule(&self) -> (r: Rule)
        ensures
            r@ == win_btn_rule(*self),
    {
        let declarations: Vec<Declaration> = vec![
            declare("background-color", "transparent".to_owned()),
            declare("background-image", "none".to_owned()),
            declare("border", "none".to_owned()),
            declare("box-shadow", "none".to_owned()),
            declare("color", self.text_muted.to_css()),
            declare("min-width", "28px".to_owned()),
            declare("min-height", "28px".to_owned()),
            declare("padding", "0".to_owned()),
            declare("border-radius", pixels(self.radius)),
        ];
        assert(declared_all(declarations@) =~= win_btn_rule(*self).declarations);
        Rule { selector: ".win-btn", declarations }
    }

    /// The rule of `.win-btn:hover`.
    fn win_btn_hover_rule(&self) -> (r: Rule)
        ensures
            r@ == win_btn_hover_rule(*self),
    {
        let declarations: Vec<Declaration> = vec![
            declare("background-color", self.elevated.to_css()),
            declare("color", self.text.to_css()),
        ];
        assert(declared_all(declarations@) =~= win_btn_hover_rule(*self).declarations);
        Rule { selector: ".win-btn:hover", declarations }
    }

    /// The rule of `.win-btn.close:hover`.
    fn win_btn_close_hover_rule(&self) -> (r: Rule)
        ensures
            r@ == win_btn_close_hover_rule(*self),
    {
        let declarations: Vec<Declaration> = vec![
            declare("background-color", "#e34b4b".to_owned()),
            declare("color", "#ffffff".to_owned()),
        ];
        assert(declared_all(declarations@) =~= win_btn_close_hover_rule(*self).declarations);
        Rule { selector: ".win-btn.close:hover", declarations }
    }

    /// The rule of `.content-area`.
    fn content_area_rule(&self) -> (r: Rule)
        ensures
            r@ == content_area_rule(*self),
    {
        let declarations: Vec<Declaration> = vec![
            declare("background-color", self.background.to_css()),
        ];
        assert(declared_all(declarations@) =~= content_area_rule(*self).declarations);
        Rule { selector: ".content-area", declarations }
    }

    /// The rule of `paned.content-area > separator`.
    fn paned_content_area_separator_rule(&self) -> (r: Rule)
        ensures
            r@ == paned_content_area_separator_rule(*self),
    {
        let declarations: Vec<Declaration> = vec![
            declare("background-color", self.border.to_css()),
            declare("min-width", "1px".to_owned()),
            declare("min-height", "1px".to_owned()),
        ];
        assert(declared_all(declarations@) =~= paned_content_area_separator_rule(
            *self,
        ).declarations);
        Rule { selector: "paned.content-area > separator", declarations }
    }

    /// The rule of `.pane-placeholder`.
    fn pane_placeholder_rule(&self) -> (r: Rule)
        ensures
            r@ == pane_placeholder_rule(*self),
    {
        let declarations: Vec<Declaration> = vec![
            declare("background-color", self.surface.to_css()),
            declare("color", self.text_muted.to_css()),
            declare("font-size", "12px".to_owned()),
        ];
        assert(declared_all(declarations@) =~= pane_placeholder_rule(*self).declarations);
        Rule { selector: ".pane-placeholder", declarations }
    }

    /// The rule of `.pane-placeholder.left`.
    fn pane_placeholder_left_rule(&self) -> (r: Rule)
        ensures
            r@ == pane_placeholder_left_rule(*self),
    {
        let declarations: Vec<Declaration> = vec![
            declare("background-color", self.background.to_css()),
        ];
        assert(declared_all(declarations@) =~= pane_placeholder_left_rule(*self).declarations);
        Rule { selector: ".pane-placeholder.left", declarations }
    }

    /// The rule of `.statusbar`.
    fn statusbar_rule(&self) -> (r: Rule)
        ensures
            r@ == statusbar_rule(*self),
    {
        let declarations: Vec<Declaration> = vec![
            declare("background-color", self.surface.to_css()),
            declare("border-top", line(self.border)),
            declare("padding", sides(self.spacing)),
            declare("min-height", "24px".to_owned()),
            declare("color", self.text_muted.to_css()),
            declare("font-size", "11px".to_owned()),
        ];
        assert(declared_all(declarations@) =~= statusbar_rule(*self).declarations);
        Rule { selector: ".statusbar", declarations }
    }

    /// The rule of `.statusbar-accent`.
    fn statusbar_accent_rule(&self) -> (r: Rule)
        ensures
            r@ == statusbar_accent_rule(*self),
    {
        let declarations: Vec<Declaration> = vec![
            declare("color", self.accent.to_css()),
        ];
        assert(declared_all(declarations@) =~= statusbar_accent_rule(*self).declarations);
        Rule { selector: ".statusbar-accent", declarations }
    }
}

/// What follows the blue channel in a color literal.
spec fn after_blue(c: Color) -> Seq<char> {
    ", "@ + number::number_text(c.a@) + ")"@
}

/// What follows the green channel.
spec fn after_green(c: Color) -> Seq<char> {
    ", "@ + text::decimal(c.b as nat) + after_blue(c)
}

/// What follows the red channel.
spec fn after_red(c: Color) -> Seq<char> {
    ", "@ + text::decimal(c.g as nat) + after_green(c)
}

/// The parts of a text can be joined from the end as well.
proof fn lemma_joined_from_the_end(s: Seq<char>, a: Seq<char>, b: Seq<char>, c: Seq<char>)
    ensures
        s + a + b + c == s + (a + b + c),
{
    assert(s + a + b + c =~= s + (a + b + c));
}

/// A color literal, taken apart behind each channel.
proof fn lemma_literal_parts(c: Color)
    ensures
        color_text(c) == "rgba("@ + text::decimal(c.r as nat) + after_red(c),
        after_red(c).len() > 0 && !text::is_digit(after_red(c)[0]),
        after_green(c).len() > 0 && !text::is_digit(after_green(c)[0]),
        after_blue(c).len() > 0 && !text::is_digit(after_blue(c)[0]),
{
    reveal_strlit(", ");
    let red = "rgba("@ + text::decimal(c.r as nat);
    let g = text::decimal(c.g as nat);
    let b = text::decimal(c.b as nat);
    let a = number::number_text(c.a@);
    let green = red + ", "@ + g;
    let blue = green + ", "@ + b;
    assert(color_text(c) == blue + ", "@ + a + ")"@);
    lemma_joined_from_the_end(blue, ", "@, a, ")"@);
    lemma_joined_from_the_end(green, ", "@, b, after_blue(c));
    lemma_joined_from_the_end(red, ", "@, g, after_green(c));
}

/// A color literal tells its color: equal literals have equal channels and the
/// same opacity.
pub proof fn law_literal_tells_the_color(c: Color, d: Color)
    requires
        color_text(c) == color_text(d),
    ensures
        c.r == d.r,
        c.g == d.g,
        c.b == d.b,
        c.a@ == d.a@,
{
    lemma_literal_parts(c);
    lemma_literal_parts(d);
    text::lemma_number_in_place("rgba("@, c.r as nat, d.r as nat, after_red(c), after_red(d));
    text::lemma_number_in_place(", "@, c.g as nat, d.g as nat, after_green(c), after_green(d));
    text::lemma_number_in_place(", "@, c.b as nat, d.b as nat, after_blue(c), after_blue(d));
    reveal_strlit(", ");
    reveal_strlit(")");
    let end = after_blue(c).len() - 1;
    assert(number::number_text(c.a@) =~= after_blue(c).subrange(2, end));
    assert(number::number_text(d.a@) =~= after_blue(d).subrange(2, end));
    number::law_text_tells_the_number(c.a@, d.a@);
}

/// Whether `s` is without the character `c`.
spec fn without(s: Seq<char>, c: char) -> bool {
    forall|i: int| 0 <= i < s.len() ==> #[trigger] s[i] != c
}

/// Whether `s` is without the characters that end declarations and rules.
spec fn inside(s: Seq<char>) -> bool {
    without(s, ';') && without(s, '}')
}

/// Whether `s` ends with `c` and a line break.
spec fn ends_with(s: Seq<char>, c: char) -> bool {
    s.len() >= 2 && s[s.len() - 2] == c && s[s.len() - 1] == '\n'
}

/// Whether `s` ends with `c` and a line break, and has `c` nowhere else.
spec fn is_block(s: Seq<char>, c: char) -> bool {
    ends_with(s, c) && without(s.take(s.len() - 2), c)
}

/// Text that ends in a block tells the block and what is before it.
proof fn lemma_last_block(p: Seq<char>, r: Seq<char>, q: Seq<char>, s: Seq<char>, c: char)
    requires
        c != '\n',
        p + r == q + s,
        ends_with(p, c),
        ends_with(q, c),
        is_block(r, c),
        is_block(s, c),
    ensures
        p == q,
        r == s,
{
    let whole = p + r;
    assert(whole.len() == p.len() + r.len() && whole.len() == q.len() + s.len());
    if p.len() != q.len() {
        lemma_no_shorter_block(p, r, q, s, c);
        lemma_no_shorter_block(q, s, p, r, c);
    }
    assert(p =~= whole.take(p.len() as int));
    assert(q =~= whole.take(q.len() as int));
    assert(r =~= whole.skip(p.len() as int));
    assert(s =~= whole.skip(q.len() as int));
}

/// Of two blocks that end the same text, the first is not the shorter one.
proof fn lemma_no_shorter_block(p: Seq<char>, r: Seq<char>, q: Seq<char>, s: Seq<char>, c: char)
    requires
        c != '\n',
        p + r == q + s,
        ends_with(p, c),
        ends_with(q, c),
        is_block(r, c),
        is_block(s, c),
    ensures
        p.len() <= q.len(),
{
    let whole = p + r;
    assert(whole.len() == p.len() + r.len() && whole.len() == q.len() + s.len());
    if p.len() > q.len() {
        let end = p.len() - 2;
        assert(whole[end] == c);
        if end == q.len() - 1 {
            assert((q + s)[end] == '\n');
        } else {
            let i = end - q.len();
            assert((q + s)[end] == s[i]);
            assert(s.take(s.len() - 2)[i] == s[i]);
        }
    }
}

/// A block behind anything ends it.
proof fn lemma_block_ends(p: Seq<char>, r: Seq<char>, c: char)
    requires
        is_block(r, c),
    ensures
        ends_with(p + r, c),
{
    let n = (p + r).len();
    assert((p + r)[n - 2] == r[r.len() - 2]);
    assert((p + r)[n - 1] == r[r.len() - 1]);
}

/// Whether a declaration is without the ends of declarations and rules.
spec fn plain(d: Declared) -> bool {
    inside(d.property) && inside(d.value)
}

/// Whether a rule is without them, but for its own.
spec fn plain_rule(r: RuleModel) -> bool {
    &&& inside(r.selector)
    &&& forall|i: int| 0 <= i < r.declarations.len() ==> plain(#[trigger] r.declarations[i])
}

/// Whether two lists declare the same properties in the same order.
spec fn alike(a: Seq<Declared>, b: Seq<Declared>) -> bool {
    &&& a.len() == b.len()
    &&& forall|i: int|
        #![trigger a[i]]
        #![trigger b[i]]
        0 <= i < a.len() ==> a[i].property == b[i].property
}

/// A declaration is a block of its rule, and does not end it.
proof fn lemma_declaration(d: Declared)
    requires
        plain(d),
    ensures
        is_block(declaration_text(d), ';'),
        without(declaration_text(d), '}'),
{
    reveal_strlit("    ");
    reveal_strlit(": ");
    reveal_strlit(";\n");
    let s = declaration_text(d);
    let front = "    "@ + d.property + ": "@ + d.value;
    assert(s.take(s.len() - 2) =~= front);
}

/// A declaration tells its value.
proof fn lemma_declaration_tells(d: Declared, e: Declared)
    requires
        d.property == e.property,
        declaration_text(d) == declaration_text(e),
    ensures
        d == e,
{
    reveal_strlit("    ");
    reveal_strlit(": ");
    reveal_strlit(";\n");
    let s = declaration_text(d);
    let from = d.property.len() + 6;
    assert(d.value =~= s.subrange(from as int, s.len() - 2));
    assert(e.value =~= s.subrange(from as int, s.len() - 2));
}

/// Declarations do not end their rule, and end like the last of them.
proof fn lemma_declarations(declarations: Seq<Declared>)
    requires
        forall|i: int| 0 <= i < declarations.len() ==> plain(#[trigger] declarations[i]),
    ensures
        without(declarations_text(declarations), '}'),
        declarations.len() > 0 ==> ends_with(declarations_text(declarations), ';'),
    decreases declarations.len(),
{
    if declarations.len() > 0 {
        let front = declarations.drop_last();
        let last = declarations.last();
        assert forall|i: int| 0 <= i < front.len() implies plain(#[trigger] front[i]) by {
            assert(front[i] == declarations[i]);
        }
        lemma_declarations(front);
        assert(plain(declarations[declarations.len() - 1]));
        lemma_declaration(last);
        lemma_block_ends(declarations_text(front), declaration_text(last), ';');
    }
}

/// Declarations of the same properties tell their values.
proof fn lemma_declarations_tell(a: Seq<Declared>, b: Seq<Declared>)
    requires
        alike(a, b),
        forall|i: int| 0 <= i < a.len() ==> plain(#[trigger] a[i]),
        forall|i: int| 0 <= i < b.len() ==> plain(#[trigger] b[i]),
        declarations_text(a) == declarations_text(b),
    ensures
        a == b,
    decreases a.len(),
{
    if a.len() > 0 {
        let n = a.len() - 1;
        let p = a.drop_last();
        let q = b.drop_last();
        assert forall|i: int| 0 <= i < n implies plain(#[trigger] p[i]) by {
            assert(p[i] == a[i]);
        }
        assert forall|i: int| 0 <= i < n implies plain(#[trigger] q[i]) by {
            assert(q[i] == b[i]);
        }
        assert(plain(a[n]) && plain(b[n]));
        assert(a[n].property == b[n].property);
        assert(alike(p, q)) by {
            assert forall|i: int|
                #![trigger p[i]]
                #![trigger q[i]]
                0 <= i < p.len() implies p[i].property == q[i].property by {
                assert(p[i] == a[i] && q[i] == b[i]);
            }
        }
        lemma_declaration(a[n]);
        lemma_declaration(b[n]);
        lemma_declarations(p);
        lemma_declarations(q);
        let x = declaration_text(a[n]);
        let y = declaration_text(b[n]);
        if n == 0 {
            assert(declarations_text(p) + x =~= x);
            assert(declarations_text(q) + y =~= y);
        } else {
            lemma_last_block(declarations_text(p), x, declarations_text(q), y, ';');
        }
        lemma_declaration_tells(a[n], b[n]);
        lemma_declarations_tell(p, q);
        assert(a =~= p.push(a[n]));
        assert(b =~= q.push(b[n]));
    } else {
        assert(a =~= b);
    }
}

/// A rule is a block of its stylesheet.
proof fn lemma_rule(r: RuleModel)
    requires
        plain_rule(r),
    ensures
        is_block(rule_text(r), '}'),
{
    reveal_strlit("\n");
    reveal_strlit(" {\n");
    reveal_strlit("}\n");
    lemma_declarations(r.declarations);
    let s = rule_text(r);
    let front = "\n"@ + r.selector + " {\n"@ + declarations_text(r.declarations);
    assert(s.take(s.len() - 2) =~= front);
}

/// A rule tells its declarations.
proof fn lemma_rule_tells(r: RuleModel, s: RuleModel)
    requires
        plain_rule(r),
        plain_rule(s),
        r.selector == s.selector,
        alike(r.declarations, s.declarations),
        rule_text(r) == rule_text(s),
    ensures
        r == s,
{
    reveal_strlit("\n");
    reveal_strlit(" {\n");
    reveal_strlit("}\n");
    let text = rule_text(r);
    let from = r.selector.len() + 4;
    assert(declarations_text(r.declarations) =~= text.subrange(from as int, text.len() - 2));
    assert(declarations_text(s.declarations) =~= text.subrange(from as int, text.len() - 2));
    lemma_declarations_tell(r.declarations, s.declarations);
}

/// Rules that differ at most in their values tell them.
proof fn lemma_rules_tell(a: Seq<RuleModel>, b: Seq<RuleModel>)
    requires
        a.len() == b.len(),
        forall|i: int|
            #![trigger a[i]]
            #![trigger b[i]]
            0 <= i < a.len() ==> {
                &&& plain_rule(a[i])
                &&& plain_rule(b[i])
                &&& a[i].selector == b[i].selector
                &&& alike(a[i].declarations, b[i].declarations)
            },
        rules_text(a) == rules_text(b),
    ensures
        a == b,
    decreases a.len(),
{
    if a.len() > 0 {
        let n = a.len() - 1;
        let p = a.drop_last();
        let q = b.drop_last();
        assert forall|i: int|
            #![trigger p[i]]
            #![trigger q[i]]
            0 <= i < p.len() implies {
            &&& plain_rule(p[i])
            &&& plain_rule(q[i])
            &&& p[i].selector == q[i].selector
            &&& alike(p[i].declarations, q[i].declarations)
        } by {
            assert(p[i] == a[i] && q[i] == b[i]);
        }
        let x = rule_text(a[n]);
        let y = rule_text(b[n]);
        lemma_rule(a[n]);
        lemma_rule(b[n]);
        if n == 0 {
            assert(rules_text(p) + x =~= x);
            assert(rules_text(q) + y =~= y);
        } else {
            lemma_rule(p[n - 1]);
            lemma_rule(q[n - 1]);
            lemma_block_ends(rules_text(p.drop_last()), rule_text(p[n - 1]), '}');
            lemma_block_ends(rules_text(q.drop_last()), rule_text(q[n - 1]), '}');
            lemma_last_block(rules_text(p), x, rules_text(q), y, '}');
        }
        lemma_rule_tells(a[n], b[n]);
        lemma_rules_tell(p, q);
        assert(a =~= p.push(a[n]));
        assert(b =~= q.push(b[n]));
    } else {
        assert(a =~= b);
    }
}

/// Parts without the ends of declarations and rules are without them when joined.
proof fn lemma_inside_joined(a: Seq<char>, b: Seq<char>)
    requires
        inside(a),
        inside(b),
    ensures
        inside(a + b),
{
}

/// Numbers are without the ends of declarations and rules.
proof fn lemma_number_inside(m: number::NumberModel)
    ensures
        inside(number::number_text(m)),
{
    number::lemma_characters(m);
}

/// Color literals are without the ends of declarations and rules.
proof fn lemma_color_inside(c: Color)
    ensures
        inside(color_text(c)),
{
    reveal_strlit("rgba(");
    reveal_strlit(", ");
    reveal_strlit(")");
    text::lemma_decimal_reads_back(c.r as nat);
    text::lemma_decimal_reads_back(c.g as nat);
    text::lemma_decimal_reads_back(c.b as nat);
    lemma_number_inside(c.a@);
    let r = text::decimal(c.r as nat);
    let g = text::decimal(c.g as nat);
    let b = text::decimal(c.b as nat);
    assert(inside(r));
    assert(inside(g));
    assert(inside(b));
    lemma_inside_joined("rgba("@, r);
    lemma_inside_joined("rgba("@ + r, ", "@);
    lemma_inside_joined("rgba("@ + r + ", "@, g);
    lemma_inside_joined("rgba("@ + r + ", "@ + g, ", "@);
    lemma_inside_joined("rgba("@ + r + ", "@ + g + ", "@, b);
    lemma_inside_joined("rgba("@ + r + ", "@ + g + ", "@ + b, ", "@);
    lemma_inside_joined(
        "rgba("@ + r + ", "@ + g + ", "@ + b + ", "@,
        number::number_text(c.a@),
    );
    lemma_inside_joined(
        "rgba("@ + r + ", "@ + g + ", "@ + b + ", "@ + number::number_text(c.a@),
        ")"@,
    );
}

/// The fixed words of the stylesheet are without the ends of declarations and
/// rules.
proof fn lemma_words_inside()
    ensures
        inside("window"@),
        inside("background-color"@),
        inside("color"@),
        inside("font-family"@),
        inside("sans-serif"@),
        inside(".shell-root"@),
        inside(".topbar"@),
        inside("border-bottom"@),
        inside("padding"@),
        inside("min-height"@),
        inside("38px"@),
        inside(".topbar-app-name"@),
        inside("font-weight"@),
        inside("700"@),
        inside("font-size"@),
        inside("13px"@),
        inside("margin-right"@),
        inside(".topbar-project-name"@),
        inside("12px"@),
        inside(".win-btn"@),
        inside("transparent"@),
        inside("background-image"@),
        inside("none"@),
        inside("border"@),
        inside("box-shadow"@),
        inside("min-width"@),
        inside("28px"@),
        inside("0"@),
        inside("border-radius"@),
        inside(".win-btn:hover"@),
        inside(".win-btn.close:hover"@),
        inside("#e34b4b"@),
        inside("#ffffff"@),
        inside(".content-area"@),
        inside("paned.content-area > separator"@),
        inside("1px"@),
        inside(".pane-placeholder"@),
        inside(".pane-placeholder.left"@),
        inside(".statusbar"@),
        inside("border-top"@),
        inside("24px"@),
        inside("11px"@),
        inside(".statusbar-accent"@),
{
    reveal_strlit("window");
    reveal_strlit("background-color");
    reveal_strlit("color");
    reveal_strlit("font-family");
    reveal_strlit("sans-serif");
    reveal_strlit(".shell-root");
    reveal_strlit(".topbar");
    reveal_strlit("border-bottom");
    reveal_strlit("padding");
    reveal_strlit("min-height");
    reveal_strlit("38px");
    reveal_strlit(".topbar-app-name");
    reveal_strlit("font-weight");
    reveal_strlit("700");
    reveal_strlit("font-size");
    reveal_strlit("13px");
    reveal_strlit("margin-right");
    reveal_strlit(".topbar-project-name");
    reveal_strlit("12px");
    reveal_strlit(".win-btn");
    reveal_strlit("transparent");
    reveal_strlit("background-image");
    reveal_strlit("none");
    reveal_strlit("border");
    reveal_strlit("box-shadow");
    reveal_strlit("min-width");
    reveal_strlit("28px");
    reveal_strlit("0");
    reveal_strlit("border-radius");
    reveal_strlit(".win-btn:hover");
    reveal_strlit(".win-btn.close:hover");
    reveal_strlit("#e34b4b");
    reveal_strlit("#ffffff");
    reveal_strlit(".content-area");
    reveal_strlit("paned.content-area > separator");
    reveal_strlit("1px");
    reveal_strlit(".pane-placeholder");
    reveal_strlit(".pane-placeholder.left");
    reveal_strlit(".statusbar");
    reveal_strlit("border-top");
    reveal_strlit("24px");
    reveal_strlit("11px");
    reveal_strlit(".statusbar-accent");
}

/// Lines, lengths and paddings are without them too.
proof fn lemma_values_inside(c: Color, n: Number)
    ensures
        inside(color_text(c)),
        inside(line_text(c)),
        inside(pixels_text(n)),
        inside(sides_text(n)),
{
    reveal_strlit("1px solid ");
    reveal_strlit("px");
    reveal_strlit("0 ");
    lemma_color_inside(c);
    lemma_number_inside(n@);
    lemma_inside_joined("1px solid "@, color_text(c));
    lemma_inside_joined(number::number_text(n@), "px"@);
    lemma_inside_joined("0 "@, pixels_text(n));
}

/// The rules of a stylesheet are made of plain declarations.
proof fn lemma_rules_plain(t: Theme)
    ensures
        forall|i: int| 0 <= i < rules_of(t).len() ==> plain_rule(#[trigger] rules_of(t)[i]),
{
    lemma_words_inside();
    lemma_values_inside(t.background, t.radius);
    lemma_values_inside(t.surface, t.spacing);
    lemma_values_inside(t.elevated, t.spacing);
    lemma_values_inside(t.border, t.spacing);
    lemma_values_inside(t.text, t.spacing);
    lemma_values_inside(t.text_muted, t.spacing);
    lemma_values_inside(t.accent, t.spacing);
    assert(plain_rule(window_rule(t)));
    assert(plain_rule(shell_root_rule(t)));
    assert(plain_rule(topbar_rule(t)));
    assert(plain_rule(topbar_app_name_rule(t)));
    assert(plain_rule(topbar_project_name_rule(t)));
    assert(plain_rule(win_btn_rule(t)));
    assert(plain_rule(win_btn_hover_rule(t)));
    assert(plain_rule(win_btn_close_hover_rule(t)));
    assert(plain_rule(content_area_rule(t)));
    assert(plain_rule(paned_content_area_separator_rule(t)));
    assert(plain_rule(pane_placeholder_rule(t)));
    assert(plain_rule(pane_placeholder_left_rule(t)));
    assert(plain_rule(statusbar_rule(t)));
    assert(plain_rule(statusbar_accent_rule(t)));
}

/// Whether two colors are the same.
pub open spec fn same_color(c: Color, d: Color) -> bool {
    c.r == d.r && c.g == d.g && c.b == d.b && c.a@ == d.a@
}

/// A color literal tells its color, and a length in pixels its number.
proof fn lemma_values_tell(c: Color, d: Color, m: Number, n: Number)
    ensures
        color_text(c) == color_text(d) ==> same_color(c, d),
        pixels_text(m) == pixels_text(n) ==> m@ == n@,
{
    if color_text(c) == color_text(d) {
        law_literal_tells_the_color(c, d);
    }
    if pixels_text(m) == pixels_text(n) {
        let s = pixels_text(m);
        let end = s.len() - "px"@.len();
        assert(number::number_text(m@) =~= s.take(end));
        assert(number::number_text(n@) =~= s.take(end));
        number::law_text_tells_the_number(m@, n@);
    }
}

/// A stylesheet tells its theme: equal stylesheets come from equal tokens, all
/// of them.
pub proof fn law_stylesheet_tells_the_theme(t: Theme, u: Theme)
    requires
        stylesheet(t) == stylesheet(u),
    ensures
        same_color(t.background, u.background),
        same_color(t.surface, u.surface),
        same_color(t.elevated, u.elevated),
        same_color(t.border, u.border),
        same_color(t.text, u.text),
        same_color(t.text_muted, u.text_muted),
        same_color(t.accent, u.accent),
        t.radius@ == u.radius@,
        t.spacing@ == u.spacing@,
{
    let a = rules_of(t);
    let b = rules_of(u);
    lemma_rules_plain(t);
    lemma_rules_plain(u);
    lemma_rules_tell(a, b);
    assert(a[0].declarations[0].value == b[0].declarations[0].value);
    assert(a[0].declarations[1].value == b[0].declarations[1].value);
    assert(a[2].declarations[0].value == b[2].declarations[0].value);
    assert(a[3].declarations[3].value == b[3].declarations[3].value);
    assert(a[4].declarations[0].value == b[4].declarations[0].value);
    assert(a[5].declarations[8].value == b[5].declarations[8].value);
    assert(a[6].declarations[0].value == b[6].declarations[0].value);
    assert(a[9].declarations[0].value == b[9].declarations[0].value);
    assert(a[13].declarations[0].value == b[13].declarations[0].value);
    lemma_values_tell(t.background, u.background, t.radius, u.radius);
    lemma_values_tell(t.surface, u.surface, t.spacing, u.spacing);
    lemma_values_tell(t.elevated, u.elevated, t.spacing, u.spacing);
    lemma_values_tell(t.border, u.border, t.spacing, u.spacing);
    lemma_values_tell(t.text, u.text, t.spacing, u.spacing);
    lemma_values_tell(t.text_muted, u.text_muted, t.spacing, u.spacing);
    lemma_values_tell(t.accent, u.accent, t.spacing, u.spacing);
}

/// Whether the rule of that selector, in its place among the rules, declares the
/// property with the value, in its place.
pub open spec fn declares(
    rules: Seq<RuleModel>,
    i: int,
    selector: Seq<char>,
    j: int,
    property: Seq<char>,
    value: Seq<char>,
) -> bool {
    &&& 0 <= i < rules.len()
    &&& rules[i].selector == selector
    &&& 0 <= j < rules[i].declarations.len()
    &&& rules[i].declarations[j].property == property
    &&& rules[i].declarations[j].value == value
}

/// The background is behind everything: the window, the shell, the content and its
/// left pane.
#[verifier::rlimit(30)]
pub proof fn law_background_is_used(t: Theme)
    ensures
        declares(
            rules_of(t),
            0,
            "window"@,
            0,
            "background-color"@,
            color_text(t.background),
        ),
        declares(
            rules_of(t),
            1,
            ".shell-root"@,
            0,
            "background-color"@,
            color_text(t.background),
        ),
        declares(
            rules_of(t),
            8,
            ".content-area"@,
            0,
            "background-color"@,
            color_text(t.background),
        ),
        declares(
            rules_of(t),
            11,
            ".pane-placeholder.left"@,
            0,
            "background-color"@,
            color_text(t.background),
        ),
{
    assert(rules_of(t)[0] == window_rule(t));
    assert(rules_of(t)[1] == shell_root_rule(t));
    assert(rules_of(t)[8] == content_area_rule(t));
    assert(rules_of(t)[11] == pane_placeholder_left_rule(t));
}

/// The surface is behind the bars and the panes.
#[verifier::rlimit(30)]
pub proof fn law_surface_is_used(t: Theme)
    ensures
        declares(
            rules_of(t),
            2,
            ".topbar"@,
            0,
            "background-color"@,
            color_text(t.surface),
        ),
        declares(
            rules_of(t),
            10,
            ".pane-placeholder"@,
            0,
            "background-color"@,
            color_text(t.surface),
        ),
        declares(
            rules_of(t),
            12,
            ".statusbar"@,
            0,
            "background-color"@,
            color_text(t.surface),
        ),
{
    assert(rules_of(t)[2] == topbar_rule(t));
    assert(rules_of(t)[10] == pane_placeholder_rule(t));
    assert(rules_of(t)[12] == statusbar_rule(t));
}

/// The elevated color is behind a button under the pointer.
pub proof fn law_elevated_is_used(t: Theme)
    ensures
        declares(
            rules_of(t),
            6,
            ".win-btn:hover"@,
            0,
            "background-color"@,
            color_text(t.elevated),
        ),
{
    assert(rules_of(t)[6] == win_btn_hover_rule(t));
}

/// The border is between the bars and the content, and between the panes.
#[verifier::rlimit(30)]
pub proof fn law_border_is_used(t: Theme)
    ensures
        declares(
            rules_of(t),
            2,
            ".topbar"@,
            1,
            "border-bottom"@,
            line_text(t.border),
        ),
        declares(
            rules_of(t),
            9,
            "paned.content-area > separator"@,
            0,
            "background-color"@,
            color_text(t.border),
        ),
        declares(
            rules_of(t),
            12,
            ".statusbar"@,
            1,
            "border-top"@,
            line_text(t.border),
        ),
{
    assert(rules_of(t)[2] == topbar_rule(t));
    assert(rules_of(t)[9] == paned_content_area_separator_rule(t));
    assert(rules_of(t)[12] == statusbar_rule(t));
}

/// The text color is that of plain text.
#[verifier::rlimit(30)]
pub proof fn law_text_is_used(t: Theme)
    ensures
        declares(
            rules_of(t),
            0,
            "window"@,
            1,
            "color"@,
            color_text(t.text),
        ),
        declares(
            rules_of(t),
            3,
            ".topbar-app-name"@,
            0,
            "color"@,
            color_text(t.text),
        ),
        declares(
            rules_of(t),
            6,
            ".win-btn:hover"@,
            1,
            "color"@,
            color_text(t.text),
        ),
{
    assert(rules_of(t)[0] == window_rule(t));
    assert(rules_of(t)[3] == topbar_app_name_rule(t));
    assert(rules_of(t)[6] == win_btn_hover_rule(t));
}

/// The muted text color is that of everything that stays back.
#[verifier::rlimit(30)]
pub proof fn law_text_muted_is_used(t: Theme)
    ensures
        declares(
            rules_of(t),
            4,
            ".topbar-project-name"@,
            0,
            "color"@,
            color_text(t.text_muted),
        ),
        declares(
            rules_of(t),
            5,
            ".win-btn"@,
            4,
            "color"@,
            color_text(t.text_muted),
        ),
        declares(
            rules_of(t),
            10,
            ".pane-placeholder"@,
            1,
            "color"@,
            color_text(t.text_muted),
        ),
        declares(
            rules_of(t),
            12,
            ".statusbar"@,
            4,
            "color"@,
            color_text(t.text_muted),
        ),
{
    assert(rules_of(t)[4] == topbar_project_name_rule(t));
    assert(rules_of(t)[5] == win_btn_rule(t));
    assert(rules_of(t)[10] == pane_placeholder_rule(t));
    assert(rules_of(t)[12] == statusbar_rule(t));
}

/// The accent is that of the mode in the status bar.
pub proof fn law_accent_is_used(t: Theme)
    ensures
        declares(
            rules_of(t),
            13,
            ".statusbar-accent"@,
            0,
            "color"@,
            color_text(t.accent),
        ),
{
    assert(rules_of(t)[13] == statusbar_accent_rule(t));
}

/// The radius rounds the buttons.
pub proof fn law_radius_is_used(t: Theme)
    ensures
        declares(
            rules_of(t),
            5,
            ".win-btn"@,
            8,
            "border-radius"@,
            pixels_text(t.radius),
        ),
{
    assert(rules_of(t)[5] == win_btn_rule(t));
}

/// The spacing is on both sides of the bars and behind the name.
pub proof fn law_spacing_is_used(t: Theme)
    ensures
        declares(
            rules_of(t),
            2,
            ".topbar"@,
            2,
            "padding"@,
            sides_text(t.spacing),
        ),
        declares(
            rules_of(t),
            3,
            ".topbar-app-name"@,
            3,
            "margin-right"@,
            pixels_text(t.spacing),
        ),
        declares(
            rules_of(t),
            12,
            ".statusbar"@,
            2,
            "padding"@,
            sides_text(t.spacing),
        ),
{
    assert(rules_of(t)[2] == topbar_rule(t));
    assert(rules_of(t)[3] == topbar_app_name_rule(t));
    assert(rules_of(t)[12] == statusbar_rule(t));
}

/// Only the values of the tokens vary from theme to theme: the rules, what they
/// declare, and every other value are the same in all stylesheets.
#[verifier::rlimit(30)]
pub proof fn law_themes_share_the_rest(t: Theme, u: Theme, i: int, j: int)
    requires
        0 <= i < rules_of(t).len(),
        0 <= j < rules_of(t)[i].declarations.len(),
    ensures
        rules_of(t).len() == rules_of(u).len(),
        rules_of(t)[i].selector == rules_of(u)[i].selector,
        rules_of(t)[i].declarations.len() == rules_of(u)[i].declarations.len(),
        rules_of(t)[i].declarations[j].property == rules_of(u)[i].declarations[j].property,
        rules_of(t)[i].declarations[j].value == rules_of(u)[i].declarations[j].value || is_token(
            i,
            j,
        ),
{
}

/// Where the values of tokens stand.
pub open spec fn is_token(i: int, j: int) -> bool {
    ||| i == 0 && (j == 0 || j == 1)
    ||| i == 1 && j == 0
    ||| i == 2 && (j == 0 || j == 1 || j == 2)
    ||| i == 3 && (j == 0 || j == 3)
    ||| i == 4 && j == 0
    ||| i == 5 && (j == 4 || j == 8)
    ||| i == 6 && (j == 0 || j == 1)
    ||| i == 8 && j == 0
    ||| i == 9 && j == 0
    ||| i == 10 && (j == 0 || j == 1)
    ||| i == 11 && j == 0
    ||| i == 12 && (j == 0 || j == 1 || j == 2 || j == 4)
    ||| i == 13 && j == 0
}

/// A line is one pixel of its color, a length a number of pixels, and a padding
/// that length on the left and on the right and nothing above and below.
pub proof fn law_values_hold_their_tokens(c: Color, n: Number)
    ensures
        line_text(c) == "1px solid "@ + color_text(c),
        pixels_text(n) == number::number_text(n@) + "px"@,
        sides_text(n) == "0 "@ + (number::number_text(n@) + "px"@),
{
}

/// Stylesheets are put together from their rules: the text of rules one after the
/// other is their texts one after the other, and so it is with declarations.
pub proof fn law_rules_are_joined(a: Seq<RuleModel>, b: Seq<RuleModel>, r: RuleModel)
    ensures
        rules_text(a + b) == rules_text(a) + rules_text(b),
        rules_text(seq![r]) == rule_text(r),
    decreases b.len(),
{
    assert(seq![r].drop_last() =~= Seq::<RuleModel>::empty());
    assert(rules_text(Seq::<RuleModel>::empty()) =~= Seq::<char>::empty());
    assert(Seq::<char>::empty() + rule_text(r) =~= rule_text(r));
    if b.len() == 0 {
        assert(a + b =~= a);
        assert(rules_text(a) + rules_text(b) =~= rules_text(a));
    } else {
        assert((a + b).drop_last() =~= a + b.drop_last());
        law_rules_are_joined(a, b.drop_last(), r);
        assert(rules_text(a + b) =~= rules_text(a) + rules_text(b));
    }
}

/// The declarations of a rule are put together in the same way.
pub proof fn law_declarations_are_joined(a: Seq<Declared>, b: Seq<Declared>, d: Declared)
    ensures
        declarations_text(a + b) == declarations_text(a) + declarations_text(b),
        declarations_text(seq![d]) == declaration_text(d),
    decreases b.len(),
{
    assert(seq![d].drop_last() =~= Seq::<Declared>::empty());
    assert(declarations_text(Seq::<Declared>::empty()) =~= Seq::<char>::empty());
    assert(Seq::<char>::empty() + declaration_text(d) =~= declaration_text(d));
    if b.len() == 0 {
        assert(a + b =~= a);
        assert(declarations_text(a) + declarations_text(b) =~= declarations_text(a));
    } else {
        assert((a + b).drop_last() =~= a + b.drop_last());
        law_declarations_are_joined(a, b.drop_last(), d);
        assert(declarations_text(a + b) =~= declarations_text(a) + declarations_text(b));
    }
}

/// A declaration is a property and its value on a line of their own, and a rule a
/// selector with its declarations in braces: both hold what they are made of just
/// as it is.
pub proof fn law_rule_holds_its_parts(selector: Seq<char>, property: Seq<char>, value: Seq<char>)
    ensures
        declaration_text(declared(property, value)) == "    "@ + (property + (": "@ + (value
            + ";\n"@))),
        rule_text(
            RuleModel { selector, declarations: seq![declared(property, value)] },
        ) == "\n"@ + (selector + (" {\n"@ + (declaration_text(declared(property, value))
            + "}\n"@))),
        declared(property, value).property == property,
        declared(property, value).value == value,
{
    let d = declared(property, value);
    law_declarations_are_joined(seq![], seq![], d);
    assert(declaration_text(d) =~= "    "@ + (property + (": "@ + (value + ";\n"@))));
    assert(rule_text(RuleModel { selector, declarations: seq![d] }) =~= "\n"@ + (selector + (
    " {\n"@ + (declaration_text(d) + "}\n"@))));
}

/// A color is written with its channels in the order red, green, blue, then its
/// opacity, whatever they are.
pub proof fn law_literal_holds_the_channels(c: Color)
    ensures
        color_text(c) == "rgba("@ + (text::decimal(c.r as nat) + (", "@ + (text::decimal(
            c.g as nat,
        ) + (", "@ + (text::decimal(c.b as nat) + (", "@ + (number::number_text(c.a@) + ")"@))))))),
{
    assert(color_text(c) =~= "rgba("@ + (text::decimal(c.r as nat) + (", "@ + (text::decimal(
        c.g as nat,
    ) + (", "@ + (text::decimal(c.b as nat) + (", "@ + (number::number_text(c.a@) + ")"@))))))));
}

/// An opaque color has its three channels and the opacity one.
pub proof fn law_opaque_color_has_its_channels(c: Color, r: u8, g: u8, b: u8)
    requires
        is_opaque(c, r, g, b),
    ensures
        c.r == r,
        c.g == g,
        c.b == b,
        c.a@ == (number::NumberModel::Finite { negative: false, digits: 1, places: 0 }),
{
}

/// A color has just the channels and the opacity that it was made with, and an
/// opaque one differs from no other color with its channels and the opacity one.
pub proof fn law_color_has_what_it_was_made_with(r: u8, g: u8, b: u8, a: Number)
    ensures
        color_of(r, g, b, a).r == r,
        color_of(r, g, b, a).g == g,
        color_of(r, g, b, a).b == b,
        color_of(r, g, b, a).a == a,
        a@ == number::whole(1) ==> is_opaque(color_of(r, g, b, a), r, g, b),
{
}

} // verus!
