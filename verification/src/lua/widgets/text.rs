use crate::lua::widgets::attributes::{
    horizontal_of, length_of, vertical_of, Horizontal, Length, Vertical, WidgetError,
};
use crate::lua::widgets::LuaWidget;
use crate::number::Number;
use vstd::prelude::*;

verus! {

/// How a text is drawn: its color as red, green, blue and opacity, or the
/// color of its surroundings.
#[derive(Clone, Copy, Debug)]
pub struct TextStyle {
    pub color: Option<[Number; 4]>,
}

/// A line of text.
#[derive(Clone)]
pub struct LuaWidgetText {
    pub content: String,
    pub align_x: Option<Horizontal>,
    pub align_y: Option<Vertical>,
    pub style: Option<TextStyle>,
    pub width: Option<Length>,
    pub height: Option<Length>,
    pub size: Option<Number>,
}

impl LuaWidgetText {
    /// The text, with nothing else set.
    pub fn new(content: String) -> (r: Self)
        ensures
            r.content == content,
            r.align_x is None,
            r.align_y is None,
            r.style is None,
            r.width is None,
            r.height is None,
            r.size is None,
    {
        LuaWidgetText {
            content,
            align_x: None,
            align_y: None,
            style: None,
            width: None,
            height: None,
            size: None,
        }
    }

    /// Sets the horizontal alignment from a word.
    pub fn align_x(self, word: &str) -> (r: Result<Self, WidgetError>)
        ensures
            r == (match horizontal_of(word@) {
                Ok(align) => Ok(LuaWidgetText { align_x: Some(align), ..self }),
                Err(e) => Err(e),
            }),
    {
        match Horizontal::parse(word) {
            Ok(align) => Ok(LuaWidgetText { align_x: Some(align), ..self }),
            Err(e) => Err(e),
        }
    }

    /// Sets the vertical alignment from a word.
    pub fn align_y(self, word: &str) -> (r: Result<Self, WidgetError>)
        ensures
            r == (match vertical_of(word@) {
                Ok(align) => Ok(LuaWidgetText { align_y: Some(align), ..self }),
                Err(e) => Err(e),
            }),
    {
        match Vertical::parse(word) {
            Ok(align) => Ok(LuaWidgetText { align_y: Some(align), ..self }),
            Err(e) => Err(e),
        }
    }

    /// Sets the color, or leaves it to the surroundings.
    pub fn style(self, color: Option<[Number; 4]>) -> (r: Self)
        ensures
            r == (LuaWidgetText { style: Some(TextStyle { color }), ..self }),
    {
        LuaWidgetText { style: Some(TextStyle { color }), ..self }
    }

    /// Sets the width from a word and, where the word needs one, a unit.
    pub fn width(self, word: &str, unit: Option<Number>) -> (r: Result<Self, WidgetError>)
        ensures
            r == (match length_of(word@, unit) {
                Ok(length) => Ok(LuaWidgetText { width: Some(length), ..self }),
                Err(e) => Err(e),
            }),
    {
        match Length::parse(word, unit) {
            Ok(length) => Ok(LuaWidgetText { width: Some(length), ..self }),
            Err(e) => Err(e),
        }
    }

    /// Sets the height from a word and, where the word needs one, a unit.
    pub fn height(self, word: &str, unit: Option<Number>) -> (r: Result<Self, WidgetError>)
        ensures
            r == (match length_of(word@, unit) {
                Ok(length) => Ok(LuaWidgetText { height: Some(length), ..self }),
                Err(e) => Err(e),
            }),
    {
        match Length::parse(word, unit) {
            Ok(length) => Ok(LuaWidgetText { height: Some(length), ..self }),
            Err(e) => Err(e),
        }
    }

    /// Sets the size of the letters.
    pub fn size(self, size: Number) -> (r: Self)
        ensures
            r == (LuaWidgetText { size: Some(size), ..self }),
    {
        LuaWidgetText { size: Some(size), ..self }
    }

    /// This widget as a node of a widget tree.
    pub fn into_widget(self) -> (r: LuaWidget)
        ensures
            r == LuaWidget::Text(self),
    {
        LuaWidget::Text(self)
    }
}

} // verus!
