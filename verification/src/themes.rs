//! Color themes and color resolution.
//!
//! A theme bundles background, text, axis and grid colors with an ordered
//! palette.  Themes are looked up by name with a fixed fallback to the
//! light theme.  The draw color of any (series, point) pair is resolved at
//! emission time by [`resolve_color`]: the point's own color wins, then the
//! series color, then the palette entry at the series index modulo the
//! palette length.
//!
//! For drawings produced with default colors, [`Theme::apply_to_svg`]
//! recolors finished markup by substituting the theme's colors for the
//! known default color values, using a verified text replacement.

use vstd::prelude::*;

verus! {

/// A named bundle of colors.
pub struct Theme {
    pub name: String,
    pub background: String,
    pub primary: String,
    pub secondary: String,
    pub accent: String,
    pub text: String,
    pub grid: String,
    pub axis: String,
    pub colors: Vec<String>,
}

/// The palette of a theme, as character sequences.
impl Theme {
    pub open spec fn palette(&self) -> Seq<Seq<char>> {
        self.colors@.map_values(|s: String| s@)
    }
}

/// Replaces every non-overlapping occurrence of `from` in `s` with `to`,
/// scanning left to right.
pub open spec fn replace_spec(s: Seq<char>, from: Seq<char>, to: Seq<char>) -> Seq<char>
    decreases s.len(),
{
    if from.len() == 0 || s.len() < from.len() {
        s
    } else if s.take(from.len() as int) == from {
        to + replace_spec(s.skip(from.len() as int), from, to)
    } else {
        seq![s[0]] + replace_spec(s.drop_first(), from, to)
    }
}

/// Relies on `String::push`: appends one character to the string.
#[verifier::external_body]
fn push_char(s: &mut String, c: char)
    ensures
        final (s)@ == old(s)@.push(c),
{
    s.push(c);
}

/// The characters of a string, as an indexable list.
fn chars_of(s: &str) -> (r: Vec<char>)
    ensures
        r@ == s@,
{
    let n = s.unicode_len();
    let mut r: Vec<char> = Vec::new();
    let mut i: usize = 0;
    while i < n
        invariant
            n == s@.len(),
            i <= n,
            r@ == s@.take(i as int),
        decreases n - i,
    {
        r.push(s.get_char(i));
        proof {
            assert(s@.take(i as int).push(s@[i as int]) =~= s@.take(i as int + 1));
        }
        i += 1;
    }
    proof {
        assert(s@.take(n as int) =~= s@);
    }
    r
}

/// A string with the given characters.
fn string_of(chars: &Vec<char>) -> (r: String)
    ensures
        r@ == chars@,
{
    let mut r = String::new();
    let mut i: usize = 0;
    while i < chars.len()
        invariant
            i <= chars@.len(),
            r@ == chars@.take(i as int),
        decreases chars@.len() - i,
    {
        push_char(&mut r, chars[i]);
        proof {
            assert(chars@.take(i as int).push(chars@[i as int]) =~= chars@.take(i as int + 1));
        }
        i += 1;
    }
    proof {
        assert(chars@.take(chars@.len() as int) =~= chars@);
    }
    r
}

/// Appends all characters of `src` to `out`.
fn push_all(out: &mut Vec<char>, src: &Vec<char>)
    ensures
        final (out)@ == old(out)@ + src@,
{
    let mut i: usize = 0;
    while i < src.len()
        invariant
            i <= src@.len(),
            out@ == old(out)@ + src@.take(i as int),
        decreases src@.len() - i,
    {
        out.push(src[i]);
        proof {
            assert(old(out)@ + src@.take(i as int + 1) =~= (old(out)@ + src@.take(i as int)).push(
                src@[i as int],
            ));
        }
        i += 1;
    }
    proof {
        assert(src@.take(src@.len() as int) =~= src@);
    }
}

/// Replacement over character lists.
fn replace_chars(s: &Vec<char>, from: &Vec<char>, to: &Vec<char>) -> (r: Vec<char>)
    requires
        from@.len() > 0,
    ensures
        r@ == replace_spec(s@, from@, to@),
{
    let m = from.len();
    let mut out: Vec<char> = Vec::new();
    let mut i: usize = 0;
    proof {
        assert(s@.skip(0) =~= s@);
    }
    while i < s.len()
        invariant
            from@.len() == m > 0,
            i <= s@.len(),
            replace_spec(s@, from@, to@) == out@ + replace_spec(s@.skip(i as int), from@, to@),
        decreases s@.len() - i,
    {
        let ghost rest = s@.skip(i as int);
        let n = s.len();
        let mut matches = n - i >= m;
        if matches {
            let mut j: usize = 0;
            while j < m
                invariant
                    from@.len() == m,
                    n == s@.len(),
                    i + m <= n,
                    j <= m,
                    matches ==> (forall|k: int| 0 <= k < j ==> s@[i + k] == from@[k]),
                    !matches ==> (exists|k: int| 0 <= k < m && s@[i + k] != from@[k]),
                decreases m - j,
            {
                if s[i + j] != from[j] {
                    proof {
                        assert(s@[i + j as int] != from@[j as int]);
                    }
                    matches = false;
                    j = m;
                } else {
                    j += 1;
                }
            }
        }
        if matches {
            proof {
                assert(rest.len() >= from@.len());
                assert(rest.take(m as int) =~= from@);
                assert(rest.skip(m as int) =~= s@.skip(i as int + m));
            }
            push_all(&mut out, to);
            i += m;
        } else {
            proof {
                if rest.len() >= from@.len() {
                    if rest.take(m as int) == from@ {
                        let k = choose|k: int| 0 <= k < m && s@[i + k] != from@[k];
                        assert(rest.take(m as int)[k] == s@[i + k]);
                        assert(false);
                    }
                }
                assert(rest.drop_first() =~= s@.skip(i as int + 1));
                assert(seq![rest[0]] =~= seq![s@[i as int]]);
            }
            out.push(s[i]);
            i += 1;
        }
        proof {
            assert(replace_spec(s@, from@, to@) == out@ + replace_spec(
                s@.skip(i as int),
                from@,
                to@,
            ));
        }
    }
    proof {
        assert(s@.skip(s@.len() as int) =~= Seq::<char>::empty());
        assert(replace_spec(Seq::<char>::empty(), from@, to@) == Seq::<char>::empty());
        assert(out@ + Seq::<char>::empty() =~= out@);
    }
    out
}

/// Replaces every occurrence of `from` in `s` with `to`.
pub fn replace_all(s: &str, from: &str, to: &str) -> (r: String)
    requires
        from@.len() > 0,
    ensures
        r@ == replace_spec(s@, from@, to@),
{
    let sv = chars_of(s);
    let fv = chars_of(from);
    let tv = chars_of(to);
    let out = replace_chars(&sv, &fv, &tv);
    string_of(&out)
}

/// Whether two strings hold the same characters.
pub fn str_eq(a: &str, b: &str) -> (r: bool)
    ensures
        r == (a@ == b@),
{
    let na = a.unicode_len();
    let nb = b.unicode_len();
    if na != nb {
        proof {
            assert(a@ != b@);
        }
        return false;
    }
    let mut i: usize = 0;
    while i < na
        invariant
            na == a@.len() == b@.len(),
            i <= na,
            forall|k: int| 0 <= k < i ==> a@[k] == b@[k],
        decreases na - i,
    {
        if a.get_char(i) != b.get_char(i) {
            proof {
                assert(a@[i as int] != b@[i as int]);
            }
            return false;
        }
        i += 1;
    }
    proof {
        assert(a@ =~= b@);
    }
    true
}

/// The draw color of a data point: the point's own color wins, then the
/// series color, then the palette entry at the series index modulo the
/// palette length.
pub open spec fn resolved_color(
    point: Option<String>,
    series: Option<String>,
    palette: Seq<Seq<char>>,
    idx: int,
) -> Seq<char> {
    match point {
        Option::Some(c) => c@,
        Option::None => match series {
            Option::Some(c) => c@,
            Option::None => palette[idx % palette.len() as int],
        },
    }
}

/// Resolves the draw color of a data point (see [`resolved_color`]).
pub fn resolve_color<'a>(
    point: &'a Option<String>,
    series: &'a Option<String>,
    palette: &'a Vec<String>,
    idx: usize,
) -> (r: &'a str)
    requires
        palette@.len() > 0,
    ensures
        r@ == resolved_color(*point, *series, palette@.map_values(|s: String| s@), idx as int),
{
    match point {
        Option::Some(c) => c.as_str(),
        Option::None => match series {
            Option::Some(c) => c.as_str(),
            Option::None => palette[idx % palette.len()].as_str(),
        },
    }
}

/// The light theme's palette.
pub open spec fn light_palette() -> Seq<Seq<char>> {
    seq![
        "#3498db"@,
        "#e74c3c"@,
        "#2ecc71"@,
        "#f39c12"@,
        "#9b59b6"@,
        "#1abc9c"@,
        "#34495e"@,
        "#e67e22"@,
    ]
}

/// The dark theme's palette.
pub open spec fn dark_palette() -> Seq<Seq<char>> {
    seq![
        "#3498db"@,
        "#e74c3c"@,
        "#2ecc71"@,
        "#f39c12"@,
        "#9b59b6"@,
        "#1abc9c"@,
        "#95a5a6"@,
        "#e67e22"@,
    ]
}

/// The material theme's palette.
pub open spec fn material_palette() -> Seq<Seq<char>> {
    seq![
        "#2196f3"@,
        "#f44336"@,
        "#4caf50"@,
        "#ff9800"@,
        "#9c27b0"@,
        "#00bcd4"@,
        "#607d8b"@,
        "#795548"@,
    ]
}

/// The minimal theme's palette.
pub open spec fn minimal_palette() -> Seq<Seq<char>> {
    seq![
        "#000000"@,
        "#666666"@,
        "#999999"@,
        "#cccccc"@,
        "#333333"@,
        "#555555"@,
        "#777777"@,
        "#aaaaaa"@,
    ]
}

/// The theme is the light theme, field for field.
pub open spec fn matches_light(t: &Theme) -> bool {
    &&& t.name@ == "Light"@
    &&& t.background@ == "#ffffff"@
    &&& t.text@ == "#333333"@
    &&& t.grid@ == "#dddddd"@
    &&& t.axis@ == "#333333"@
    &&& t.palette() =~= light_palette()
}

/// The theme is the dark theme, field for field.
pub open spec fn matches_dark(t: &Theme) -> bool {
    &&& t.name@ == "Dark"@
    &&& t.background@ == "#2c3e50"@
    &&& t.text@ == "#ecf0f1"@
    &&& t.grid@ == "#34495e"@
    &&& t.axis@ == "#ecf0f1"@
    &&& t.palette() =~= dark_palette()
}

/// The theme is the material theme, field for field.
pub open spec fn matches_material(t: &Theme) -> bool {
    &&& t.name@ == "Material"@
    &&& t.background@ == "#fafafa"@
    &&& t.text@ == "#212121"@
    &&& t.grid@ == "#e0e0e0"@
    &&& t.axis@ == "#424242"@
    &&& t.palette() =~= material_palette()
}

/// The theme is the minimal theme, field for field.
pub open spec fn matches_minimal(t: &Theme) -> bool {
    &&& t.name@ == "Minimal"@
    &&& t.background@ == "#ffffff"@
    &&& t.text@ == "#000000"@
    &&& t.grid@ == "#f0f0f0"@
    &&& t.axis@ == "#000000"@
    &&& t.palette() =~= minimal_palette()
}

impl Theme {
    /// The light theme: dark text on a white background.
    pub fn light() -> (r: Self)
        ensures
            matches_light(&r),
            r.colors@.len() == 8,
    {
        let mut colors: Vec<String> = Vec::new();
        colors.push(String::from_str("#3498db"));
        colors.push(String::from_str("#e74c3c"));
        colors.push(String::from_str("#2ecc71"));
        colors.push(String::from_str("#f39c12"));
        colors.push(String::from_str("#9b59b6"));
        colors.push(String::from_str("#1abc9c"));
        colors.push(String::from_str("#34495e"));
        colors.push(String::from_str("#e67e22"));
        let r = Theme {
            name: String::from_str("Light"),
            background: String::from_str("#ffffff"),
            primary: String::from_str("#3498db"),
            secondary: String::from_str("#2ecc71"),
            accent: String::from_str("#e74c3c"),
            text: String::from_str("#333333"),
            grid: String::from_str("#dddddd"),
            axis: String::from_str("#333333"),
            colors,
        };
        r
    }

    /// The dark theme: light text on a slate background.
    pub fn dark() -> (r: Self)
        ensures
            matches_dark(&r),
            r.colors@.len() == 8,
    {
        let mut colors: Vec<String> = Vec::new();
        colors.push(String::from_str("#3498db"));
        colors.push(String::from_str("#e74c3c"));
        colors.push(String::from_str("#2ecc71"));
        colors.push(String::from_str("#f39c12"));
        colors.push(String::from_str("#9b59b6"));
        colors.push(String::from_str("#1abc9c"));
        colors.push(String::from_str("#95a5a6"));
        colors.push(String::from_str("#e67e22"));
        let r = Theme {
            name: String::from_str("Dark"),
            background: String::from_str("#2c3e50"),
            primary: String::from_str("#3498db"),
            secondary: String::from_str("#2ecc71"),
            accent: String::from_str("#e74c3c"),
            text: String::from_str("#ecf0f1"),
            grid: String::from_str("#34495e"),
            axis: String::from_str("#ecf0f1"),
            colors,
        };
        r
    }

    /// The material theme.
    pub fn material() -> (r: Self)
        ensures
            matches_material(&r),
            r.colors@.len() == 8,
    {
        let mut colors: Vec<String> = Vec::new();
        colors.push(String::from_str("#2196f3"));
        colors.push(String::from_str("#f44336"));
        colors.push(String::from_str("#4caf50"));
        colors.push(String::from_str("#ff9800"));
        colors.push(String::from_str("#9c27b0"));
        colors.push(String::from_str("#00bcd4"));
        colors.push(String::from_str("#607d8b"));
        colors.push(String::from_str("#795548"));
        let r = Theme {
            name: String::from_str("Material"),
            background: String::from_str("#fafafa"),
            primary: String::from_str("#2196f3"),
            secondary: String::from_str("#4caf50"),
            accent: String::from_str("#ff5722"),
            text: String::from_str("#212121"),
            grid: String::from_str("#e0e0e0"),
            axis: String::from_str("#424242"),
            colors,
        };
        r
    }

    /// The minimal theme: grayscale.
    pub fn minimal() -> (r: Self)
        ensures
            matches_minimal(&r),
            r.colors@.len() == 8,
    {
        let mut colors: Vec<String> = Vec::new();
        colors.push(String::from_str("#000000"));
        colors.push(String::from_str("#666666"));
        colors.push(String::from_str("#999999"));
        colors.push(String::from_str("#cccccc"));
        colors.push(String::from_str("#333333"));
        colors.push(String::from_str("#555555"));
        colors.push(String::from_str("#777777"));
        colors.push(String::from_str("#aaaaaa"));
        let r = Theme {
            name: String::from_str("Minimal"),
            background: String::from_str("#ffffff"),
            primary: String::from_str("#000000"),
            secondary: String::from_str("#666666"),
            accent: String::from_str("#999999"),
            text: String::from_str("#000000"),
            grid: String::from_str("#f0f0f0"),
            axis: String::from_str("#000000"),
            colors,
        };
        r
    }

    /// The palette entry at an index, wrapping around the palette.
    pub fn get_color(&self, index: usize) -> (r: &String)
        requires
            self.colors@.len() > 0,
        ensures
            r@ == self.palette()[index as int % self.palette().len() as int],
    {
        &self.colors[index % self.colors.len()]
    }

    /// The stylesheet [`Theme::generate_css`] produces.
    pub open spec fn css_spec(&self) -> Seq<char> {
        "\n    .chart-background { fill: "@ + self.background@ + "; }\n    .chart-text { font-family: Arial, sans-serif; fill: "@
            + self.text@
            + "; }\n    .chart-title { font-family: Arial, sans-serif; font-size: 16px; font-weight: bold; fill: "@
            + self.text@
            + "; text-anchor: middle; }\n    .chart-axis { stroke: "@
            + self.axis@
            + "; stroke-width: 2; }\n    .chart-axis-text { font-family: Arial, sans-serif; font-size: 12px; fill: "@
            + self.text@
            + "; }\n    .chart-grid { stroke: "@
            + self.grid@
            + "; stroke-width: 1; stroke-dasharray: 2,2; }\n    .chart-primary { fill: "@
            + self.primary@ + "; stroke: "@ + self.primary@
            + "; }\n    .chart-secondary { fill: "@ + self.secondary@ + "; stroke: "@
            + self.secondary@ + "; }\n    .chart-accent { fill: "@ + self.accent@ + "; stroke: "@
            + self.accent@ + "; }\n    "@
    }

    /// A stylesheet with one class per themed role.
    pub fn generate_css(&self) -> (r: String)
        ensures
            r@ == self.css_spec(),
    {
        let mut s = String::from_str("\n    .chart-background { fill: ");
        s.append(self.background.as_str());
        s.append("; }\n    .chart-text { font-family: Arial, sans-serif; fill: ");
        s.append(self.text.as_str());
        s.append(
            "; }\n    .chart-title { font-family: Arial, sans-serif; font-size: 16px; font-weight: bold; fill: ",
        );
        s.append(self.text.as_str());
        s.append("; text-anchor: middle; }\n    .chart-axis { stroke: ");
        s.append(self.axis.as_str());
        s.append(
            "; stroke-width: 2; }\n    .chart-axis-text { font-family: Arial, sans-serif; font-size: 12px; fill: ",
        );
        s.append(self.text.as_str());
        s.append("; }\n    .chart-grid { stroke: ");
        s.append(self.grid.as_str());
        s.append("; stroke-width: 1; stroke-dasharray: 2,2; }\n    .chart-primary { fill: ");
        s.append(self.primary.as_str());
        s.append("; stroke: ");
        s.append(self.primary.as_str());
        s.append("; }\n    .chart-secondary { fill: ");
        s.append(self.secondary.as_str());
        s.append("; stroke: ");
        s.append(self.secondary.as_str());
        s.append("; }\n    .chart-accent { fill: ");
        s.append(self.accent.as_str());
        s.append("; stroke: ");
        s.append(self.accent.as_str());
        s.append("; }\n    ");
        proof {
            assert(s@ =~= self.css_spec());
        }
        s
    }

    /// The recoloring [`Theme::apply_to_svg`] performs: the theme's
    /// background, text, axis, grid and first three palette colors replace
    /// the engine's default color values, in a fixed order; the dark theme
    /// additionally lightens plain black text and strokes and gives every
    /// text element an explicit fill.
    pub open spec fn themed_svg_spec(&self, s: Seq<char>) -> Seq<char> {
        let bg = "fill=\""@ + self.background@ + "\""@;
        let txt = "fill=\""@ + self.text@ + "\""@;
        let ax = "stroke=\""@ + self.axis@ + "\""@;
        let gr = "stroke=\""@ + self.grid@ + "\""@;
        let n = self.palette().len() as int;
        let c0 = "fill=\""@ + self.palette()[0int % n] + "\""@;
        let c1 = "fill=\""@ + self.palette()[1int % n] + "\""@;
        let c2 = "fill=\""@ + self.palette()[2int % n] + "\""@;
        let s1 = replace_spec(s, "fill=\"white\""@, bg);
        let s2 = replace_spec(s1, "fill=\"#ffffff\""@, bg);
        let s3 = replace_spec(s2, "fill=\"#333333\""@, txt);
        let s4 = replace_spec(s3, "fill=\"#333\""@, txt);
        let s5 = replace_spec(s4, "stroke=\"black\""@, ax);
        let s6 = replace_spec(s5, "stroke=\"#333333\""@, ax);
        let s7 = replace_spec(s6, "stroke=\"#333\""@, ax);
        let s8 = replace_spec(s7, "stroke=\"#dddddd\""@, gr);
        let s9 = replace_spec(s8, "stroke=\"#ddd\""@, gr);
        let s10 = replace_spec(s9, "fill=\"#3498db\""@, c0);
        let s11 = replace_spec(s10, "fill=\"#e74c3c\""@, c1);
        let s12 = replace_spec(s11, "fill=\"#2ecc71\""@, c2);
        if self.name@ == "Dark"@ {
            let d1 = replace_spec(s12, "fill=\"#000\""@, txt);
            let d2 = replace_spec(d1, "fill=\"black\""@, txt);
            let d3 = replace_spec(d2, "<text "@, "<text fill=\""@ + self.text@ + "\" "@);
            let d4 = replace_spec(d3, "stroke:black"@, "stroke:"@ + self.axis@);
            let d5 = replace_spec(d4, "stroke:#333"@, "stroke:"@ + self.axis@);
            let d6 = replace_spec(d5, "stroke:#000"@, "stroke:"@ + self.axis@);
            replace_spec(d6, "fill=\"#000000\""@, txt)
        } else {
            s12
        }
    }

    /// Recolors finished markup with this theme's colors by substituting
    /// for the engine's default color values.
    pub fn apply_to_svg(&self, svg_content: &str) -> (r: String)
        requires
            self.colors@.len() > 0,
        ensures
            r@ == self.themed_svg_spec(svg_content@),
    {
        proof {
            reveal_strlit("fill=\"white\"");
            reveal_strlit("fill=\"#ffffff\"");
            reveal_strlit("fill=\"#333333\"");
            reveal_strlit("fill=\"#333\"");
            reveal_strlit("stroke=\"black\"");
            reveal_strlit("stroke=\"#333333\"");
            reveal_strlit("stroke=\"#333\"");
            reveal_strlit("stroke=\"#dddddd\"");
            reveal_strlit("stroke=\"#ddd\"");
            reveal_strlit("fill=\"#3498db\"");
            reveal_strlit("fill=\"#e74c3c\"");
            reveal_strlit("fill=\"#2ecc71\"");
        }
        let bg = crate::canvas::fill_attr(self.background.as_str());
        let txt = crate::canvas::fill_attr(self.text.as_str());
        let ax = crate::canvas::stroke_attr(self.axis.as_str());
        let gr = crate::canvas::stroke_attr(self.grid.as_str());
        let c0 = crate::canvas::fill_attr(self.get_color(0).as_str());
        let c1 = crate::canvas::fill_attr(self.get_color(1).as_str());
        let c2 = crate::canvas::fill_attr(self.get_color(2).as_str());
        let s1 = replace_all(svg_content, "fill=\"white\"", bg.as_str());
        let s2 = replace_all(s1.as_str(), "fill=\"#ffffff\"", bg.as_str());
        let s3 = replace_all(s2.as_str(), "fill=\"#333333\"", txt.as_str());
        let s4 = replace_all(s3.as_str(), "fill=\"#333\"", txt.as_str());
        let s5 = replace_all(s4.as_str(), "stroke=\"black\"", ax.as_str());
        let s6 = replace_all(s5.as_str(), "stroke=\"#333333\"", ax.as_str());
        let s7 = replace_all(s6.as_str(), "stroke=\"#333\"", ax.as_str());
        let s8 = replace_all(s7.as_str(), "stroke=\"#dddddd\"", gr.as_str());
        let s9 = replace_all(s8.as_str(), "stroke=\"#ddd\"", gr.as_str());
        let s10 = replace_all(s9.as_str(), "fill=\"#3498db\"", c0.as_str());
        let s11 = replace_all(s10.as_str(), "fill=\"#e74c3c\"", c1.as_str());
        let s12 = replace_all(s11.as_str(), "fill=\"#2ecc71\"", c2.as_str());
        if str_eq(self.name.as_str(), "Dark") {
            proof {
                reveal_strlit("Dark");
                reveal_strlit("fill=\"#000\"");
                reveal_strlit("fill=\"black\"");
                reveal_strlit("<text ");
                reveal_strlit("<text fill=\"");
                reveal_strlit("\" ");
                reveal_strlit("stroke:black");
                reveal_strlit("stroke:#333");
                reveal_strlit("stroke:#000");
                reveal_strlit("stroke:");
                reveal_strlit("fill=\"#000000\"");
            }
            let mut text_open = String::from_str("<text fill=\"");
            text_open.append(self.text.as_str());
            text_open.append("\" ");
            let mut ax_style = String::from_str("stroke:");
            ax_style.append(self.axis.as_str());
            let d1 = replace_all(s12.as_str(), "fill=\"#000\"", txt.as_str());
            let d2 = replace_all(d1.as_str(), "fill=\"black\"", txt.as_str());
            let d3 = replace_all(d2.as_str(), "<text ", text_open.as_str());
            let d4 = replace_all(d3.as_str(), "stroke:black", ax_style.as_str());
            let d5 = replace_all(d4.as_str(), "stroke:#333", ax_style.as_str());
            let d6 = replace_all(d5.as_str(), "stroke:#000", ax_style.as_str());
            let d7 = replace_all(d6.as_str(), "fill=\"#000000\"", txt.as_str());
            proof {
                assert(text_open@ =~= "<text fill=\""@ + self.text@ + "\" "@);
                assert(ax_style@ =~= "stroke:"@ + self.axis@);
            }
            d7
        } else {
            s12
        }
    }
}

/// The built-in themes, selectable by name.
pub struct ThemeManager {
    pub themes: Vec<Theme>,
    pub current_theme: String,
}

impl Default for ThemeManager {
    /// The four built-in themes, with the light theme current.
    fn default() -> (r: Self)
        ensures
            r.wf(),
            r.themes@.len() == 4,
            matches_light(&r.themes@[0]),
            matches_dark(&r.themes@[1]),
            r.names() =~= seq!["Light"@, "Dark"@, "Material"@, "Minimal"@],
            r.current_theme@ == "Light"@,
    {
        ThemeManager::new()
    }
}

impl ThemeManager {
    /// The four built-in themes, with the light theme current.
    pub open spec fn wf(&self) -> bool {
        forall|i: int| 0 <= i < self.themes@.len() ==> (#[trigger] self.themes@[i]).colors@.len()
            > 0
    }

    /// The names of the held themes.
    pub open spec fn names(&self) -> Seq<Seq<char>> {
        self.themes@.map_values(|t: Theme| t.name@)
    }

    /// A manager holding the four built-in themes, with the light theme
    /// current.
    pub fn new() -> (r: Self)
        ensures
            r.wf(),
            r.themes@.len() == 4,
            matches_light(&r.themes@[0]),
            matches_dark(&r.themes@[1]),
            matches_material(&r.themes@[2]),
            matches_minimal(&r.themes@[3]),
            r.names() =~= seq!["Light"@, "Dark"@, "Material"@, "Minimal"@],
            r.current_theme@ == "Light"@,
    {
        let mut themes: Vec<Theme> = Vec::new();
        themes.push(Theme::light());
        themes.push(Theme::dark());
        themes.push(Theme::material());
        themes.push(Theme::minimal());
        let r = ThemeManager { themes, current_theme: String::from_str("Light") };
        proof {
            assert forall|i: int| 0 <= i < r.themes@.len() implies (
            #[trigger] r.themes@[i]).colors@.len() > 0 by {
                assert(r.themes@[i].palette().len() == r.themes@[i].colors@.len());
            }
        }
        r
    }

    /// Registers one more theme.
    pub fn add_theme(&mut self, theme: Theme)
        ensures
            final (self).themes@ == old(self).themes@.push(theme),
            final (self).current_theme == old(self).current_theme,
    {
        self.themes.push(theme);
    }

    /// The first held theme with the given name, if any.
    pub fn get_theme(&self, name: &str) -> (r: Option<&Theme>)
        ensures
            r is Some <==> exists|i: int| 0 <= i < self.names().len() && self.names()[i] == name@,
            match r {
                Option::Some(t) => t.name@ == name@ && exists|i: int|
                    0 <= i < self.themes@.len() && *t == self.themes@[i] && #[trigger] self.names()[i]
                        == name@ && (forall|j: int| 0 <= j < i ==> self.names()[j] != name@),
                Option::None => true,
            },
    {
        let mut i: usize = 0;
        while i < self.themes.len()
            invariant
                i <= self.themes@.len(),
                forall|k: int| 0 <= k < i ==> self.names()[k] != name@,
            decreases self.themes@.len() - i,
        {
            if str_eq(self.themes[i].name.as_str(), name) {
                proof {
                    assert(self.names()[i as int] == name@);
                }
                return Some(&self.themes[i]);
            }
            i += 1;
        }
        None
    }

    /// The theme the manager currently points at, if it is still held.
    pub fn get_current_theme(&self) -> (r: Option<&Theme>)
        ensures
            r is Some <==> exists|i: int|
                0 <= i < self.names().len() && self.names()[i] == self.current_theme@,
            match r {
                Option::Some(t) => t.name@ == self.current_theme@,
                Option::None => true,
            },
    {
        self.get_theme(self.current_theme.as_str())
    }

    /// Points the manager at a held theme; an unknown name changes nothing.
    pub fn set_current_theme(&mut self, name: String)
        ensures
            final (self).themes@ == old(self).themes@,
            (exists|i: int| 0 <= i < old(self).names().len() && old(self).names()[i] == name@)
                ==> final (self).current_theme@ == name@,
            !(exists|i: int| 0 <= i < old(self).names().len() && old(self).names()[i] == name@)
                ==> final (self).current_theme == old(self).current_theme,
    {
        if self.get_theme(name.as_str()).is_some() {
            self.current_theme = name;
        }
    }

    /// The names of every held theme, in order.
    pub fn list_themes(&self) -> (r: Vec<&String>)
        ensures
            r@.len() == self.themes@.len(),
            forall|i: int| 0 <= i < r@.len() ==> (#[trigger] r@[i])@ == self.names()[i],
    {
        let mut r: Vec<&String> = Vec::new();
        let mut i: usize = 0;
        while i < self.themes.len()
            invariant
                i <= self.themes@.len(),
                r@.len() == i,
                forall|k: int| 0 <= k < i ==> (#[trigger] r@[k])@ == self.names()[k],
            decreases self.themes@.len() - i,
        {
            r.push(&self.themes[i].name);
            i += 1;
        }
        r
    }

    /// Selects a built-in theme by name, ASCII-case-insensitively, falling
    /// back to the light theme on an unrecognized name.
    pub fn from_name(name: &str) -> (r: Theme)
        ensures
            r.colors@.len() == 8,
            lower_chars(name@) == "dark"@ ==> matches_dark(&r),
            lower_chars(name@) == "material"@ ==> matches_material(&r),
            lower_chars(name@) == "minimal"@ ==> matches_minimal(&r),
            lower_chars(name@) != "dark"@ && lower_chars(name@) != "material"@ && lower_chars(
                name@,
            ) != "minimal"@ ==> matches_light(&r),
    {
        proof {
            reveal_strlit("dark");
            reveal_strlit("material");
            reveal_strlit("minimal");
            assert("dark"@.len() == 4);
            assert("material"@.len() == 8);
            assert("minimal"@.len() == 7);
        }
        let lower = ascii_lower(name);
        if str_eq(lower.as_str(), "dark") {
            Theme::dark()
        } else if str_eq(lower.as_str(), "material") {
            Theme::material()
        } else if str_eq(lower.as_str(), "minimal") {
            Theme::minimal()
        } else {
            Theme::light()
        }
    }
}

/// ASCII lowercase of one character.
pub open spec fn lower_char(c: char) -> char {
    if c == 'A' {
        'a'
    } else if c == 'B' {
        'b'
    } else if c == 'C' {
        'c'
    } else if c == 'D' {
        'd'
    } else if c == 'E' {
        'e'
    } else if c == 'F' {
        'f'
    } else if c == 'G' {
        'g'
    } else if c == 'H' {
        'h'
    } else if c == 'I' {
        'i'
    } else if c == 'J' {
        'j'
    } else if c == 'K' {
        'k'
    } else if c == 'L' {
        'l'
    } else if c == 'M' {
        'm'
    } else if c == 'N' {
        'n'
    } else if c == 'O' {
        'o'
    } else if c == 'P' {
        'p'
    } else if c == 'Q' {
        'q'
    } else if c == 'R' {
        'r'
    } else if c == 'S' {
        's'
    } else if c == 'T' {
        't'
    } else if c == 'U' {
        'u'
    } else if c == 'V' {
        'v'
    } else if c == 'W' {
        'w'
    } else if c == 'X' {
        'x'
    } else if c == 'Y' {
        'y'
    } else if c == 'Z' {
        'z'
    } else {
        c
    }
}

/// ASCII lowercase of a character sequence.
pub open spec fn lower_chars(s: Seq<char>) -> Seq<char> {
    s.map_values(|c: char| lower_char(c))
}

/// ASCII lowercase of a string.  Theme names are ASCII, so this agrees with
/// full Unicode case folding on every name the engine compares.
pub fn ascii_lower(s: &str) -> (r: String)
    ensures
        r@ == lower_chars(s@),
{
    let chars = chars_of(s);
    let mut out: Vec<char> = Vec::new();
    let mut i: usize = 0;
    while i < chars.len()
        invariant
            chars@ == s@,
            i <= chars@.len(),
            out@ == lower_chars(s@.take(i as int)),
        decreases chars@.len() - i,
    {
        let c = chars[i];
        let l = match c {
            'A' => 'a',
            'B' => 'b',
            'C' => 'c',
            'D' => 'd',
            'E' => 'e',
            'F' => 'f',
            'G' => 'g',
            'H' => 'h',
            'I' => 'i',
            'J' => 'j',
            'K' => 'k',
            'L' => 'l',
            'M' => 'm',
            'N' => 'n',
            'O' => 'o',
            'P' => 'p',
            'Q' => 'q',
            'R' => 'r',
            'S' => 's',
            'T' => 't',
            'U' => 'u',
            'V' => 'v',
            'W' => 'w',
            'X' => 'x',
            'Y' => 'y',
            'Z' => 'z',
            other => other,
        };
        out.push(l);
        proof {
            assert(l == lower_char(s@[i as int]));
            assert(lower_chars(s@.take(i as int + 1)) =~= lower_chars(s@.take(i as int)).push(
                lower_char(s@[i as int]),
            ));
        }
        i += 1;
    }
    proof {
        assert(s@.take(s@.len() as int) =~= s@);
    }
    string_of(&out)
}

} // verus!
