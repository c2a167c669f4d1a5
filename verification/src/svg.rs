//! The document: a root element, one group that scales, and inside it one
//! `path` element for each outline that was added. Everything here is text;
//! nothing needs a document object to run.

use vstd::prelude::*;
use vstd::string::*;

use crate::color::{hex_text, Color};

verus! {

/// How the document is dressed. Each value is written into the document as
/// it stands, so it is the caller's to keep it well-formed.
pub struct SvgOptions {
    /// The factor of the group's `scale` transform, as a numeral. `1` when
    /// absent.
    pub scale: Option<String>,
    /// The background of the root element. `white` when absent.
    pub backgroundColor: Option<String>,
    /// The fill of every path. The colour given with each path, when absent.
    pub pathFill: Option<String>,
    /// Further attributes of the root element. None when absent. A `style`
    /// among them overrides the background.
    pub attributes: Option<String>,
}

/// An outline as it is drawn: the path data, and the place that the data is
/// relative to. The two coordinates are numerals.
pub struct PathData {
    pub d: String,
    pub x: String,
    pub y: String,
}

/// The document under construction: the path elements so far, oldest first.
pub struct Svg {
    pub paths: Vec<String>,
    pub options: SvgOptions,
}

/// The characters of an optional text.
pub open spec fn chars_of(text: Option<String>) -> Option<Seq<char>> {
    match text {
        Some(t) => Some(t@),
        None => None,
    }
}

/// An optional text, or the text that stands in for it.
pub open spec fn text_or(text: Option<Seq<char>>, default: Seq<char>) -> Seq<char> {
    match text {
        Some(t) => t,
        None => default,
    }
}

/// Texts laid end to end.
pub open spec fn joined(parts: Seq<Seq<char>>) -> Seq<char>
    decreases parts.len(),
{
    if parts.len() == 0 {
        Seq::empty()
    } else {
        joined(parts.drop_last()) + parts.last()
    }
}

/// One `path` element.
pub open spec fn path_element(d: Seq<char>, x: Seq<char>, y: Seq<char>, fill: Seq<char>) -> Seq<
    char,
> {
    "<path d=\""@ + d + "\" transform=\"translate("@ + x + ","@ + y + ")\" style=\"fill:"@ + fill
        + "\"/>"@
}

/// What comes before the path elements: the opening tags of the root and of
/// the group.
pub open spec fn document_head(
    background: Seq<char>,
    attributes: Seq<char>,
    scale: Seq<char>,
) -> Seq<char> {
    "<svg xmlns=\"http://www.w3.org/2000/svg\" style=\"background:"@ + background + ";\" "@
        + attributes + "><g transform=\"scale("@ + scale + ")\">"@
}

/// What comes after the path elements.
pub open spec fn document_tail() -> Seq<char> {
    "</g></svg>"@
}

/// The options as characters.
pub struct OptionsModel {
    pub scale: Option<Seq<char>>,
    pub background: Option<Seq<char>>,
    pub fill: Option<Seq<char>>,
    pub attributes: Option<Seq<char>>,
}

/// An outline as characters.
pub struct PathModel {
    pub d: Seq<char>,
    pub x: Seq<char>,
    pub y: Seq<char>,
}

/// The document as characters: its options, and its path elements, oldest
/// first.
pub struct SvgModel {
    pub options: OptionsModel,
    pub fragments: Seq<Seq<char>>,
}

impl OptionsModel {
    /// The fill of a path that comes with the given colour.
    pub open spec fn fill_for(self, color: Color) -> Seq<char> {
        text_or(self.fill, hex_text(color))
    }
}

impl SvgModel {
    /// A document without paths.
    pub open spec fn empty(options: OptionsModel) -> SvgModel {
        SvgModel { options, fragments: Seq::empty() }
    }

    /// The document with one more path, after those that are there.
    pub open spec fn with_path(self, path: PathModel, color: Color) -> SvgModel {
        SvgModel {
            options: self.options,
            fragments: self.fragments.push(
                path_element(path.d, path.x, path.y, self.options.fill_for(color)),
            ),
        }
    }

    /// The opening tags, with the options in them: each as it was given, or
    /// `white` for the background, nothing for the further attributes and
    /// `1` for the scale where it was not.
    pub open spec fn head(self) -> Seq<char> {
        document_head(
            text_or(self.options.background, "white"@),
            text_or(self.options.attributes, Seq::empty()),
            text_or(self.options.scale, "1"@),
        )
    }

    /// The whole text of the document: the opening tags, the path elements
    /// in the order in which they were added, the closing tags.
    pub open spec fn document(self) -> Seq<char> {
        self.head() + joined(self.fragments) + document_tail()
    }
}

impl View for SvgOptions {
    type V = OptionsModel;

    open spec fn view(&self) -> OptionsModel {
        OptionsModel {
            scale: chars_of(self.scale),
            background: chars_of(self.backgroundColor),
            fill: chars_of(self.pathFill),
            attributes: chars_of(self.attributes),
        }
    }
}

impl View for PathData {
    type V = PathModel;

    open spec fn view(&self) -> PathModel {
        PathModel { d: self.d@, x: self.x@, y: self.y@ }
    }
}

impl View for Svg {
    type V = SvgModel;

    open spec fn view(&self) -> SvgModel {
        SvgModel {
            options: self.options@,
            fragments: Seq::new(self.paths@.len(), |i: int| self.paths@[i]@),
        }
    }
}

impl Svg {
    /// A document without paths.
    pub fn new(options: SvgOptions) -> (svg: Svg)
        ensures
            svg@ == SvgModel::empty(options@),
    {
        let svg = Svg { paths: Vec::new(), options };
        assert(svg@.fragments =~= Seq::<Seq<char>>::empty());
        svg
    }

    /// Adds one path element, after those that are there. Its fill is the
    /// `pathFill` of the options, or else `color`.
    pub fn add_path(&mut self, path: &PathData, color: &Color)
        ensures
            final(self)@ == old(self)@.with_path(path@, *color),
    {
        let mut element = String::from_str("<path d=\"");
        element.append(path.d.as_str());
        element.append("\" transform=\"translate(");
        element.append(path.x.as_str());
        element.append(",");
        element.append(path.y.as_str());
        element.append(")\" style=\"fill:");
        match &self.options.pathFill {
            Some(fill) => element.append(fill.as_str()),
            None => {
                let hex = color.to_hex_string();
                element.append(hex.as_str());
            },
        }
        element.append("\"/>");
        self.paths.push(element);
        assert(self@.fragments =~= old(self)@.with_path(path@, *color).fragments);
    }

    /// Writes the document out. Nothing changes: the same document gives the
    /// same text every time.
    pub fn get_svg_string(&self) -> (text: String)
        ensures
            text@ == self@.document(),
    {
        let mut text = String::from_str(
            "<svg xmlns=\"http://www.w3.org/2000/svg\" style=\"background:",
        );
        match &self.options.backgroundColor {
            Some(background) => text.append(background.as_str()),
            None => text.append("white"),
        }
        text.append(";\" ");
        if let Some(attributes) = &self.options.attributes {
            text.append(attributes.as_str());
        }
        text.append("><g transform=\"scale(");
        match &self.options.scale {
            Some(scale) => text.append(scale.as_str()),
            None => text.append("1"),
        }
        text.append(")\">");
        let ghost head = text@;
        let count: usize = self.paths.len();
        let mut i: usize = 0;
        while i < count
            invariant
                i <= count,
                count == self.paths@.len(),
                text@ == head + joined(self@.fragments.take(i as int)),
            decreases count - i,
        {
            text.append(self.paths[i].as_str());
            assert(self@.fragments.take(i + 1).drop_last() =~= self@.fragments.take(i as int));
            i += 1;
        }
        assert(self@.fragments.take(count as int) =~= self@.fragments);
        text.append("</g></svg>");
        text
    }
}

} // verus!
