use crate::number::Number;
use vstd::prelude::*;

verus! {

/// Why a script's description of a widget was refused.
#[derive(Clone, Copy, Debug, PartialEq, Eq, Structural)]
pub enum WidgetError {
    /// A length that needs a unit was given none.
    MissingUnit,
    /// The word names no kind of length.
    IncorrectLength,
    /// The word names no alignment.
    IncorrectAlignment,
    /// The word names no way of fitting an image.
    IncorrectContentFit,
    /// The word names no way of scaling an image.
    IncorrectFilterMethod,
    /// Children are counted from one.
    IncorrectChild,
}

/// How far a widget extends along one axis.
#[derive(Clone, Copy, Debug, PartialEq, Eq, Structural)]
pub enum Length {
    Fill,
    /// A share of the space; the renderer takes the whole part of the unit.
    FillPortion(Number),
    Shrink,
    Fixed(Number),
}

/// The space kept free inside a widget, side by side.
#[derive(Clone, Copy, Debug, PartialEq, Eq, Structural)]
pub struct Padding {
    pub top: Number,
    pub right: Number,
    pub bottom: Number,
    pub left: Number,
}

#[derive(Clone, Copy, Debug, PartialEq, Eq, Structural)]
pub enum Horizontal {
    Left,
    Center,
    Right,
}

#[derive(Clone, Copy, Debug, PartialEq, Eq, Structural)]
pub enum Vertical {
    Top,
    Center,
    Bottom,
}

/// How an image is fitted into its bounds.
#[derive(Clone, Copy, Debug, PartialEq, Eq, Structural)]
pub enum ContentFit {
    Contain,
    Cover,
    Fill,
    /// The image keeps its own size.
    Unscaled,
    ScaleDown,
}

/// How an image is scaled.
#[derive(Clone, Copy, Debug, PartialEq, Eq, Structural)]
pub enum FilterMethod {
    Linear,
    Nearest,
}

/// A part of an image, in pixels.
#[derive(Clone, Copy, Debug, PartialEq, Eq, Structural)]
pub struct Rectangle {
    pub x: u32,
    pub y: u32,
    pub width: u32,
    pub height: u32,
}

/// Whether two texts are the same.
pub fn same_text(a: &str, b: &str) -> (r: bool)
    ensures
        r == (a@ == b@),
{
    let x = a.to_owned();
    let y = b.to_owned();
    x == y
}

/// The length that a word and a unit describe.
pub open spec fn length_of(word: Seq<char>, unit: Option<Number>) -> Result<Length, WidgetError> {
    if word == "fill"@ {
        Ok(Length::Fill)
    } else if word == "fill_portion"@ {
        match unit {
            Some(u) => Ok(Length::FillPortion(u)),
            None => Err(WidgetError::MissingUnit),
        }
    } else if word == "shrink"@ {
        Ok(Length::Shrink)
    } else if word == "fixed"@ {
        match unit {
            Some(u) => Ok(Length::Fixed(u)),
            None => Err(WidgetError::MissingUnit),
        }
    } else {
        Err(WidgetError::IncorrectLength)
    }
}

/// The horizontal alignment that a word names.
pub open spec fn horizontal_of(word: Seq<char>) -> Result<Horizontal, WidgetError> {
    if word == "left"@ {
        Ok(Horizontal::Left)
    } else if word == "right"@ {
        Ok(Horizontal::Right)
    } else if word == "center"@ {
        Ok(Horizontal::Center)
    } else {
        Err(WidgetError::IncorrectAlignment)
    }
}

/// The vertical alignment that a word names.
pub open spec fn vertical_of(word: Seq<char>) -> Result<Vertical, WidgetError> {
    if word == "top"@ {
        Ok(Vertical::Top)
    } else if word == "bottom"@ {
        Ok(Vertical::Bottom)
    } else if word == "center"@ {
        Ok(Vertical::Center)
    } else {
        Err(WidgetError::IncorrectAlignment)
    }
}

/// The way of fitting an image that a word names.
pub open spec fn content_fit_of(word: Seq<char>) -> Result<ContentFit, WidgetError> {
    if word == "contain"@ {
        Ok(ContentFit::Contain)
    } else if word == "cover"@ {
        Ok(ContentFit::Cover)
    } else if word == "fill"@ {
        Ok(ContentFit::Fill)
    } else if word == "none"@ {
        Ok(ContentFit::Unscaled)
    } else if word == "scale_down"@ {
        Ok(ContentFit::ScaleDown)
    } else {
        Err(WidgetError::IncorrectContentFit)
    }
}

/// The way of scaling an image that a word names.
pub open spec fn filter_method_of(word: Seq<char>) -> Result<FilterMethod, WidgetError> {
    if word == "linear"@ {
        Ok(FilterMethod::Linear)
    } else if word == "nearest"@ {
        Ok(FilterMethod::Nearest)
    } else {
        Err(WidgetError::IncorrectFilterMethod)
    }
}

impl Length {
    /// Reads a length: `fill`, `shrink`, or `fill_portion` or `fixed` with a
    /// unit.
    pub fn parse(word: &str, unit: Option<Number>) -> (r: Result<Length, WidgetError>)
        ensures
            r == length_of(word@, unit),
    {
        if same_text(word, "fill") {
            Ok(Length::Fill)
        } else if same_text(word, "fill_portion") {
            match unit {
                Some(u) => Ok(Length::FillPortion(u)),
                None => Err(WidgetError::MissingUnit),
            }
        } else if same_text(word, "shrink") {
            Ok(Length::Shrink)
        } else if same_text(word, "fixed") {
            match unit {
                Some(u) => Ok(Length::Fixed(u)),
                None => Err(WidgetError::MissingUnit),
            }
        } else {
            Err(WidgetError::IncorrectLength)
        }
    }
}

impl Horizontal {
    /// Reads a horizontal alignment: `left`, `right` or `center`.
    pub fn parse(word: &str) -> (r: Result<Horizontal, WidgetError>)
        ensures
            r == horizontal_of(word@),
    {
        if same_text(word, "left") {
            Ok(Horizontal::Left)
        } else if same_text(word, "right") {
            Ok(Horizontal::Right)
        } else if same_text(word, "center") {
            Ok(Horizontal::Center)
        } else {
            Err(WidgetError::IncorrectAlignment)
        }
    }
}

impl Vertical {
    /// Reads a vertical alignment: `top`, `bottom` or `center`.
    pub fn parse(word: &str) -> (r: Result<Vertical, WidgetError>)
        ensures
            r == vertical_of(word@),
    {
        if same_text(word, "top") {
            Ok(Vertical::Top)
        } else if same_text(word, "bottom") {
            Ok(Vertical::Bottom)
        } else if same_text(word, "center") {
            Ok(Vertical::Center)
        } else {
            Err(WidgetError::IncorrectAlignment)
        }
    }
}

impl ContentFit {
    /// Reads a way of fitting an image: `contain`, `cover`, `fill`, `none`
    /// or `scale_down`.
    pub fn parse(word: &str) -> (r: Result<ContentFit, WidgetError>)
        ensures
            r == content_fit_of(word@),
    {
        if same_text(word, "contain") {
            Ok(ContentFit::Contain)
        } else if same_text(word, "cover") {
            Ok(ContentFit::Cover)
        } else if same_text(word, "fill") {
            Ok(ContentFit::Fill)
        } else if same_text(word, "none") {
            Ok(ContentFit::Unscaled)
        } else if same_text(word, "scale_down") {
            Ok(ContentFit::ScaleDown)
        } else {
            Err(WidgetError::IncorrectContentFit)
        }
    }
}

impl FilterMethod {
    /// Reads a way of scaling an image: `linear` or `nearest`.
    pub fn parse(word: &str) -> (r: Result<FilterMethod, WidgetError>)
        ensures
            r == filter_method_of(word@),
    {
        if same_text(word, "linear") {
            Ok(FilterMethod::Linear)
        } else if same_text(word, "nearest") {
            Ok(FilterMethod::Nearest)
        } else {
            Err(WidgetError::IncorrectFilterMethod)
        }
    }
}

impl WidgetError {
    /// The message that the script sees.
    pub fn message(self) -> (r: &'static str)
        ensures
            r@ == (match self {
                WidgetError::MissingUnit => "missing unit"@,
                WidgetError::IncorrectLength => "incorrect length"@,
                WidgetError::IncorrectAlignment => "incorrect alignment"@,
                WidgetError::IncorrectContentFit => "incorrect content_fit"@,
                WidgetError::IncorrectFilterMethod => "incorrect filter_method"@,
                WidgetError::IncorrectChild => "incorrect child"@,
            }),
    {
        match self {
            WidgetError::MissingUnit => "missing unit",
            WidgetError::IncorrectLength => "incorrect length",
            WidgetError::IncorrectAlignment => "incorrect alignment",
            WidgetError::IncorrectContentFit => "incorrect content_fit",
            WidgetError::IncorrectFilterMethod => "incorrect filter_method",
            WidgetError::IncorrectChild => "incorrect child",
        }
    }
}

} // verus!
