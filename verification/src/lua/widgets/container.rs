use crate::lua::widgets::attributes::{
    horizontal_of, length_of, vertical_of, Horizontal, Length, Padding, Vertical, WidgetError,
};
use crate::lua::widgets::LuaWidget;
use crate::number::Number;
use vstd::prelude::*;

verus! {

/// The colors of a container, each as red, green, blue and opacity.
#[derive(Clone, Copy, Debug)]
pub struct ContainerStyle {
    pub text_color: [Number; 4],
    pub background: [Number; 4],
}

/// The color that is given, or transparent black.
pub open spec fn color_or_clear(color: Option<[Number; 4]>) -> [Number; 4] {
    match color {
        Some(c) => c,
        None => [Number { bits: 0 }, Number { bits: 0 }, Number { bits: 0 }, Number { bits: 0 }],
    }
}

/// A widget in a box of its own.
#[derive(Clone)]
pub struct LuaWidgetContainer {
    pub inner: Box<LuaWidget>,
    pub style: Option<ContainerStyle>,
    pub padding: Option<Padding>,
    pub width: Option<Length>,
    pub height: Option<Length>,
    pub align_x: Option<Horizontal>,
    pub align_y: Option<Vertical>,
    pub clip: Option<bool>,
}

impl LuaWidgetContainer {
    /// A container around the given widget, with nothing else set.
    pub fn new(inner: LuaWidget) -> (r: Self)
        ensures
            *r.inner == inner,
            r.style is None,
            r.padding is None,
            r.width is None,
            r.height is None,
            r.align_x is None,
            r.align_y is None,
            r.clip is None,
    {
        LuaWidgetContainer {
            inner: Box::new(inner),
            style: None,
            padding: None,
            width: None,
            height: None,
            align_x: None,
            align_y: None,
            clip: None,
        }
    }

    /// Sets the colors of the text and of the background; a color that is
    /// not given is transparent black. The border and the shadow are none.
    pub fn style(self, text_color: Option<[Number; 4]>, background_color: Option<[Number; 4]>) -> (r:
        Self)
        ensures
            r == (LuaWidgetContainer {
                style: Some(
                    ContainerStyle {
                        text_color: color_or_clear(text_color),
                        background: color_or_clear(background_color),
                    },
                ),
                ..self
            }),
    {
        let clear = [Number::zero(), Number::zero(), Number::zero(), Number::zero()];
        let text = match text_color {
            Some(c) => c,
            None => clear,
        };
        let background = match background_color {
            Some(c) => c,
            None => clear,
        };
        LuaWidgetContainer {
            style: Some(ContainerStyle { text_color: text, background }),
            ..self
        }
    }

    /// Sets the space kept free inside, side by side.
    pub fn padding(self, top: Number, right: Number, bottom: Number, left: Number) -> (r: Self)
        ensures
            r == (LuaWidgetContainer { padding: Some(Padding { top, right, bottom, left }), ..self }),
    {
        LuaWidgetContainer { padding: Some(Padding { top, right, bottom, left }), ..self }
    }

    /// Sets the width from a word and, where the word needs one, a unit.
    pub fn width(self, word: &str, unit: Option<Number>) -> (r: Result<Self, WidgetError>)
        ensures
            r == (match length_of(word@, unit) {
                Ok(length) => Ok(LuaWidgetContainer { width: Some(length), ..self }),
                Err(e) => Err(e),
            }),
    {
        match Length::parse(word, unit) {
            Ok(length) => Ok(LuaWidgetContainer { width: Some(length), ..self }),
            Err(e) => Err(e),
        }
    }

    /// Sets the height from a word and, where the word needs one, a unit.
    pub fn height(self, word: &str, unit: Option<Number>) -> (r: Result<Self, WidgetError>)
        ensures
            r == (match length_of(word@, unit) {
                Ok(length) => Ok(LuaWidgetContainer { height: Some(length), ..self }),
                Err(e) => Err(e),
            }),
    {
        match Length::parse(word, unit) {
            Ok(length) => Ok(LuaWidgetContainer { height: Some(length), ..self }),
            Err(e) => Err(e),
        }
    }

    /// Sets the horizontal alignment from a word.
    pub fn align_x(self, word: &str) -> (r: Result<Self, WidgetError>)
        ensures
            r == (match horizontal_of(word@) {
                Ok(align) => Ok(LuaWidgetContainer { align_x: Some(align), ..self }),
                Err(e) => Err(e),
            }),
    {
        match Horizontal::parse(word) {
            Ok(align) => Ok(LuaWidgetContainer { align_x: Some(align), ..self }),
            Err(e) => Err(e),
        }
    }

    /// Sets the vertical alignment from a word.
    pub fn align_y(self, word: &str) -> (r: Result<Self, WidgetError>)
        ensures
            r == (match vertical_of(word@) {
                Ok(align) => Ok(LuaWidgetContainer { align_y: Some(align), ..self }),
                Err(e) => Err(e),
            }),
    {
        match Vertical::parse(word) {
            Ok(align) => Ok(LuaWidgetContainer { align_y: Some(align), ..self }),
            Err(e) => Err(e),
        }
    }

    /// Sets whether what reaches beyond the bounds is cut off.
    pub fn clip(self, clip: bool) -> (r: Self)
        ensures
            r == (LuaWidgetContainer { clip: Some(clip), ..self }),
    {
        LuaWidgetContainer { clip: Some(clip), ..self }
    }

    /// This widget as a node of a widget tree.
    pub fn into_widget(self) -> (r: LuaWidget)
        ensures
            r == LuaWidget::Container(self),
    {
        LuaWidget::Container(self)
    }
}

} // verus!
