use crate::lua::widgets::attributes::{
    ContentFit, FilterMethod, Horizontal, Length, Padding, Rectangle, Vertical, WidgetError,
};
use crate::lua::widgets::column::LuaWidgetColumn;
use crate::lua::widgets::container::{ContainerStyle, LuaWidgetContainer};
use crate::lua::widgets::image::{ImageHandleLua, LuaWidgetImage};
use crate::lua::widgets::row::LuaWidgetRow;
use crate::lua::widgets::space::LuaWidgetSpace;
use crate::lua::widgets::stack::LuaWidgetStack;
use crate::lua::widgets::text::{LuaWidgetText, TextStyle};
use crate::number::Number;
use vstd::prelude::*;

pub mod attributes;
pub mod column;
pub mod container;
pub mod image;
pub mod row;
pub mod space;
pub mod stack;
pub mod text;

verus! {

/// What a component's build function describes: a tree of layout
/// primitives. It is made anew for every frame, handed to the renderer and
/// dropped.
pub enum LuaWidget {
    /// The place of a child of the component, by its index; the child's
    /// own widget tree is put here when the component is built.
    InternalChild(usize),
    Column(LuaWidgetColumn),
    Row(LuaWidgetRow),
    Stack(LuaWidgetStack),
    Container(LuaWidgetContainer),
    Image(LuaWidgetImage),
    Text(LuaWidgetText),
    Space(LuaWidgetSpace),
}

/// A [`LuaWidget`] as a mathematical tree.
pub ghost enum WidgetView {
    InternalChild(usize),
    Column(ColumnView),
    Row(RowView),
    Stack(StackView),
    Container(ContainerView),
    Image(ImageView),
    Text(TextView),
    Space(LuaWidgetSpace),
}

pub ghost struct ColumnView {
    pub inner: Seq<WidgetView>,
    pub spacing: Option<Number>,
    pub padding: Option<Padding>,
    pub width: Option<Length>,
    pub height: Option<Length>,
    pub align_x: Option<Horizontal>,
    pub clip: Option<bool>,
}

pub ghost struct RowView {
    pub inner: Seq<WidgetView>,
    pub spacing: Option<Number>,
    pub padding: Option<Padding>,
    pub width: Option<Length>,
    pub height: Option<Length>,
    pub align_y: Option<Vertical>,
    pub clip: Option<bool>,
}

pub ghost struct StackView {
    pub inner: Seq<WidgetView>,
    pub width: Option<Length>,
    pub height: Option<Length>,
    pub clip: Option<bool>,
}

pub ghost struct ContainerView {
    pub inner: Box<WidgetView>,
    pub style: Option<ContainerStyle>,
    pub padding: Option<Padding>,
    pub width: Option<Length>,
    pub height: Option<Length>,
    pub align_x: Option<Horizontal>,
    pub align_y: Option<Vertical>,
    pub clip: Option<bool>,
}

pub ghost struct ImageView {
    pub handle: Seq<u8>,
    pub width: Option<Length>,
    pub height: Option<Length>,
    pub content_fit: Option<ContentFit>,
    pub filter_method: Option<FilterMethod>,
    pub opacity: Option<Number>,
    pub crop: Option<Rectangle>,
}

pub ghost struct TextView {
    pub content: Seq<char>,
    pub align_x: Option<Horizontal>,
    pub align_y: Option<Vertical>,
    pub style: Option<TextStyle>,
    pub width: Option<Length>,
    pub height: Option<Length>,
    pub size: Option<Number>,
}

impl View for LuaWidget {
    type V = WidgetView;

    open spec fn view(&self) -> WidgetView {
        self.tree()
    }
}

impl LuaWidget {
    /// The tree below and including this widget.
    pub open spec fn tree(self) -> WidgetView
        decreases self,
    {
        match self {
            LuaWidget::InternalChild(index) => WidgetView::InternalChild(index),
            LuaWidget::Column(c) => WidgetView::Column(
                ColumnView {
                    inner: widget_trees(c.inner@),
                    spacing: c.spacing,
                    padding: c.padding,
                    width: c.width,
                    height: c.height,
                    align_x: c.align_x,
                    clip: c.clip,
                },
            ),
            LuaWidget::Row(c) => WidgetView::Row(
                RowView {
                    inner: widget_trees(c.inner@),
                    spacing: c.spacing,
                    padding: c.padding,
                    width: c.width,
                    height: c.height,
                    align_y: c.align_y,
                    clip: c.clip,
                },
            ),
            LuaWidget::Stack(c) => WidgetView::Stack(
                StackView {
                    inner: widget_trees(c.inner@),
                    width: c.width,
                    height: c.height,
                    clip: c.clip,
                },
            ),
            LuaWidget::Container(c) => WidgetView::Container(
                ContainerView {
                    inner: Box::new((*c.inner).tree()),
                    style: c.style,
                    padding: c.padding,
                    width: c.width,
                    height: c.height,
                    align_x: c.align_x,
                    align_y: c.align_y,
                    clip: c.clip,
                },
            ),
            LuaWidget::Image(i) => WidgetView::Image(
                ImageView {
                    handle: i.handle.0@,
                    width: i.width,
                    height: i.height,
                    content_fit: i.content_fit,
                    filter_method: i.filter_method,
                    opacity: i.opacity,
                    crop: i.crop,
                },
            ),
            LuaWidget::Text(t) => WidgetView::Text(
                TextView {
                    content: t.content@,
                    align_x: t.align_x,
                    align_y: t.align_y,
                    style: t.style,
                    width: t.width,
                    height: t.height,
                    size: t.size,
                },
            ),
            LuaWidget::Space(s) => WidgetView::Space(s),
        }
    }
}

/// The trees of a sequence of widgets, in order.
pub open spec fn widget_trees(widgets: Seq<LuaWidget>) -> Seq<WidgetView>
    decreases widgets,
{
    if widgets.len() == 0 {
        Seq::empty()
    } else {
        widget_trees(widgets.drop_last()).push(widgets.last().tree())
    }
}

/// The trees of a sequence of widgets are as many, and each is its
/// widget's.
pub proof fn lemma_widget_trees(widgets: Seq<LuaWidget>)
    ensures
        widget_trees(widgets).len() == widgets.len(),
        forall|i: int| 0 <= i < widgets.len() ==> #[trigger] widget_trees(widgets)[i] == widgets[i]@,
    decreases widgets.len(),
{
    if widgets.len() > 0 {
        lemma_widget_trees(widgets.drop_last());
    }
}

/// What is shown in place of a component that could not be built.
pub open spec fn failure_notice() -> WidgetView {
    WidgetView::Text(
        TextView {
            content: "couldn't build layout, please check the logs for full details"@,
            align_x: Some(Horizontal::Center),
            align_y: Some(Vertical::Center),
            style: None,
            width: Some(Length::Fill),
            height: Some(Length::Fill),
            size: None,
        },
    )
}

/// The built children of a component, as far as they were built, as
/// mathematical trees.
pub open spec fn slots_view(built: Seq<Option<LuaWidget>>) -> Seq<Option<WidgetView>> {
    Seq::new(
        built.len(),
        |i: int|
            match built[i] {
                Some(w) => Some(w@),
                None => None,
            },
    )
}

impl WidgetView {
    /// This tree with every place of a child taken by that child's tree, or
    /// by the failure notice where there is no such tree.
    pub open spec fn substituted(self, built: Seq<Option<WidgetView>>) -> WidgetView
        decreases self,
    {
        match self {
            WidgetView::InternalChild(index) => if index < built.len() && built[index as int] is Some {
                built[index as int]->0
            } else {
                failure_notice()
            },
            WidgetView::Column(c) => WidgetView::Column(
                ColumnView { inner: substituted_all(c.inner, built), ..c },
            ),
            WidgetView::Row(c) => WidgetView::Row(
                RowView { inner: substituted_all(c.inner, built), ..c },
            ),
            WidgetView::Stack(c) => WidgetView::Stack(
                StackView { inner: substituted_all(c.inner, built), ..c },
            ),
            WidgetView::Container(c) => WidgetView::Container(
                ContainerView { inner: Box::new((*c.inner).substituted(built)), ..c },
            ),
            WidgetView::Image(_) => self,
            WidgetView::Text(_) => self,
            WidgetView::Space(_) => self,
        }
    }

    /// Whether no place of a child is left in the tree.
    pub open spec fn is_resolved(self) -> bool
        decreases self,
    {
        match self {
            WidgetView::InternalChild(_) => false,
            WidgetView::Column(c) => all_resolved(c.inner),
            WidgetView::Row(c) => all_resolved(c.inner),
            WidgetView::Stack(c) => all_resolved(c.inner),
            WidgetView::Container(c) => (*c.inner).is_resolved(),
            WidgetView::Image(_) => true,
            WidgetView::Text(_) => true,
            WidgetView::Space(_) => true,
        }
    }

    /// Whether the place of the child with the given index is in the tree.
    pub open spec fn mentions(self, index: usize) -> bool
        decreases self,
    {
        match self {
            WidgetView::InternalChild(i) => i == index,
            WidgetView::Column(c) => any_mentions(c.inner, index),
            WidgetView::Row(c) => any_mentions(c.inner, index),
            WidgetView::Stack(c) => any_mentions(c.inner, index),
            WidgetView::Container(c) => (*c.inner).mentions(index),
            WidgetView::Image(_) => false,
            WidgetView::Text(_) => false,
            WidgetView::Space(_) => false,
        }
    }
}

/// Each tree of the sequence with its places taken.
pub open spec fn substituted_all(trees: Seq<WidgetView>, built: Seq<Option<WidgetView>>) -> Seq<
    WidgetView,
>
    decreases trees,
{
    if trees.len() == 0 {
        Seq::empty()
    } else {
        substituted_all(trees.drop_last(), built).push(trees.last().substituted(built))
    }
}

/// Whether no place of a child is left in any tree of the sequence.
pub open spec fn all_resolved(trees: Seq<WidgetView>) -> bool
    decreases trees,
{
    trees.len() == 0 || (all_resolved(trees.drop_last()) && trees.last().is_resolved())
}

/// Whether the place of the child with the given index is in a tree of the
/// sequence.
pub open spec fn any_mentions(trees: Seq<WidgetView>, index: usize) -> bool
    decreases trees,
{
    trees.len() > 0 && (any_mentions(trees.drop_last(), index) || trees.last().mentions(index))
}

/// A tree with all places of children taken by trees without such places
/// has none left.
pub proof fn lemma_substituted_is_resolved(tree: WidgetView, built: Seq<Option<WidgetView>>)
    requires
        forall|i: int| 0 <= i < built.len() && built[i] is Some ==> (#[trigger] built[i])->0.is_resolved(),
    ensures
        tree.substituted(built).is_resolved(),
    decreases tree,
{
    match tree {
        WidgetView::Column(c) => lemma_all_substituted_resolved(c.inner, built),
        WidgetView::Row(c) => lemma_all_substituted_resolved(c.inner, built),
        WidgetView::Stack(c) => lemma_all_substituted_resolved(c.inner, built),
        WidgetView::Container(c) => lemma_substituted_is_resolved(*c.inner, built),
        _ => {},
    }
}

proof fn lemma_all_substituted_resolved(trees: Seq<WidgetView>, built: Seq<Option<WidgetView>>)
    requires
        forall|i: int| 0 <= i < built.len() && built[i] is Some ==> (#[trigger] built[i])->0.is_resolved(),
    ensures
        all_resolved(substituted_all(trees, built)),
        substituted_all(trees, built).len() == trees.len(),
    decreases trees,
{
    if trees.len() > 0 {
        lemma_all_substituted_resolved(trees.drop_last(), built);
        lemma_substituted_is_resolved(trees.last(), built);
        let done = substituted_all(trees, built);
        assert(done.drop_last() =~= substituted_all(trees.drop_last(), built));
    }
}

/// What [`LuaWidget::rebuilt`] gives: the tree with its places taken, or
/// the tree as it is where nothing is to take them.
pub open spec fn rebuilt_view(tree: WidgetView, built: Option<Seq<Option<WidgetView>>>) -> WidgetView {
    match built {
        Some(b) => tree.substituted(b),
        None => tree,
    }
}

/// The view of built children that may be absent.
pub open spec fn built_view(built: Option<&Vec<Option<LuaWidget>>>) -> Option<
    Seq<Option<WidgetView>>,
> {
    match built {
        Some(b) => Some(slots_view(b@)),
        None => None,
    }
}

fn rebuilt_all(widgets: &Vec<LuaWidget>, built: Option<&Vec<Option<LuaWidget>>>) -> (r: Vec<LuaWidget>)
    ensures
        widget_trees(r@) == (match built {
            Some(b) => substituted_all(widget_trees(widgets@), slots_view(b@)),
            None => widget_trees(widgets@),
        }),
    decreases
            (if built is Some {
                1nat
            } else {
                0nat
            }),
            widgets,
{
    let mut out: Vec<LuaWidget> = Vec::new();
    let mut i: usize = 0;
    while i < widgets.len()
        invariant
            i <= widgets@.len(),
            widget_trees(out@) == (match built {
                Some(b) => substituted_all(
                    widget_trees(widgets@.subrange(0, i as int)),
                    slots_view(b@),
                ),
                None => widget_trees(widgets@.subrange(0, i as int)),
            }),
        decreases widgets@.len() - i,
    {
        let next = widgets[i].rebuilt(built);
        let ghost before = out@;
        out.push(next);
        proof {
            let front = widgets@.subrange(0, i as int);
            let more = widgets@.subrange(0, i + 1);
            assert(more.drop_last() =~= front);
            assert(more.last() == widgets@[i as int]);
            assert(out@.drop_last() =~= before);
            lemma_widget_trees(front);
            lemma_widget_trees(more);
            assert(widget_trees(more).drop_last() =~= widget_trees(front));
        }
        i = i + 1;
    }
    proof {
        assert(widgets@.subrange(0, widgets@.len() as int) =~= widgets@);
    }
    out
}

fn count_mentions(widgets: &Vec<LuaWidget>, index: usize) -> (r: bool)
    ensures
        r == any_mentions(widget_trees(widgets@), index),
    decreases widgets,
{
    let mut found = false;
    let mut i: usize = 0;
    while i < widgets.len()
        invariant
            i <= widgets@.len(),
            found == any_mentions(widget_trees(widgets@.subrange(0, i as int)), index),
        decreases widgets@.len() - i,
    {
        let here = widgets[i].mentions(index);
        proof {
            let front = widgets@.subrange(0, i as int);
            let more = widgets@.subrange(0, i + 1);
            assert(more.drop_last() =~= front);
            assert(more.last() == widgets@[i as int]);
            lemma_widget_trees(front);
            lemma_widget_trees(more);
            assert(widget_trees(more).drop_last() =~= widget_trees(front));
        }
        found = found || here;
        i = i + 1;
    }
    proof {
        assert(widgets@.subrange(0, widgets@.len() as int) =~= widgets@);
    }
    found
}

impl LuaWidget {
    /// The place of a child, counted from one as scripts count.
    pub fn internal_child(index: usize) -> (r: Result<LuaWidget, WidgetError>)
        ensures
            r == (if index >= 1 {
                Ok(LuaWidget::InternalChild((index - 1) as usize))
            } else {
                Err(WidgetError::IncorrectChild)
            }),
    {
        if index >= 1 {
            Ok(LuaWidget::InternalChild(index - 1))
        } else {
            Err(WidgetError::IncorrectChild)
        }
    }

    /// What is shown in place of a component that could not be built.
    pub fn failure_notice() -> (r: LuaWidget)
        ensures
            r@ == failure_notice(),
    {
        LuaWidget::Text(
            LuaWidgetText {
                content: "couldn't build layout, please check the logs for full details".to_owned(),
                align_x: Some(Horizontal::Center),
                align_y: Some(Vertical::Center),
                style: None,
                width: Some(Length::Fill),
                height: Some(Length::Fill),
                size: None,
            },
        )
    }

    /// A new tree like this one, with its places of children taken by the
    /// built children where these are given.
    pub fn rebuilt(&self, built: Option<&Vec<Option<LuaWidget>>>) -> (r: LuaWidget)
        ensures
            r@ == rebuilt_view(self@, built_view(built)),
        decreases
                (if built is Some {
                    1nat
                } else {
                    0nat
                }),
                self,
    {
        match self {
            LuaWidget::InternalChild(index) => {
                match built {
                    Some(b) => {
                        if *index < b.len() {
                            match &b[*index] {
                                Some(w) => w.rebuilt(None),
                                None => LuaWidget::failure_notice(),
                            }
                        } else {
                            LuaWidget::failure_notice()
                        }
                    },
                    None => LuaWidget::InternalChild(*index),
                }
            },
            LuaWidget::Column(c) => LuaWidget::Column(
                LuaWidgetColumn {
                    inner: rebuilt_all(&c.inner, built),
                    spacing: c.spacing,
                    padding: c.padding,
                    width: c.width,
                    height: c.height,
                    align_x: c.align_x,
                    clip: c.clip,
                },
            ),
            LuaWidget::Row(c) => LuaWidget::Row(
                LuaWidgetRow {
                    inner: rebuilt_all(&c.inner, built),
                    spacing: c.spacing,
                    padding: c.padding,
                    width: c.width,
                    height: c.height,
                    align_y: c.align_y,
                    clip: c.clip,
                },
            ),
            LuaWidget::Stack(c) => LuaWidget::Stack(
                LuaWidgetStack {
                    inner: rebuilt_all(&c.inner, built),
                    width: c.width,
                    height: c.height,
                    clip: c.clip,
                },
            ),
            LuaWidget::Container(c) => LuaWidget::Container(
                LuaWidgetContainer {
                    inner: Box::new(c.inner.rebuilt(built)),
                    style: c.style,
                    padding: c.padding,
                    width: c.width,
                    height: c.height,
                    align_x: c.align_x,
                    align_y: c.align_y,
                    clip: c.clip,
                },
            ),
            LuaWidget::Image(i) => LuaWidget::Image(
                LuaWidgetImage {
                    handle: ImageHandleLua(i.handle.0.clone()),
                    width: i.width,
                    height: i.height,
                    content_fit: i.content_fit,
                    filter_method: i.filter_method,
                    opacity: i.opacity,
                    crop: i.crop,
                },
            ),
            LuaWidget::Text(t) => LuaWidget::Text(
                LuaWidgetText {
                    content: t.content.clone(),
                    align_x: t.align_x,
                    align_y: t.align_y,
                    style: t.style,
                    width: t.width,
                    height: t.height,
                    size: t.size,
                },
            ),
            LuaWidget::Space(s) => LuaWidget::Space(*s),
        }
    }

    /// Builds the tree that is shown from the tree that a script described
    /// and the built children of its component: a new tree in which the
    /// built child of each index stands wherever this tree has the place of
    /// that child. Where a child was not built, or the component has no such
    /// child, the failure notice stands. Where the built children hold no
    /// places, the new tree holds none.
    pub fn build(&self, built: &Vec<Option<LuaWidget>>) -> (r: LuaWidget)
        ensures
            r@ == self@.substituted(slots_view(built@)),
            (forall|i: int|
                0 <= i < built@.len() && built@[i] is Some ==> (#[trigger] built@[i])->0@.is_resolved())
                ==> r@.is_resolved(),
    {
        proof {
            if forall|i: int|
                0 <= i < built@.len() && built@[i] is Some ==> (#[trigger] built@[i])->0@.is_resolved() {
                assert forall|i: int|
                    0 <= i < slots_view(built@).len() && slots_view(
                        built@,
                    )[i] is Some implies (#[trigger] slots_view(built@)[i])->0.is_resolved() by {
                    assert(built@[i] is Some);
                }
                lemma_substituted_is_resolved(self@, slots_view(built@));
            }
        }
        self.rebuilt(Some(built))
    }

    /// Whether the tree holds the place of the child with the given index.
    pub fn mentions(&self, index: usize) -> (r: bool)
        ensures
            r == self@.mentions(index),
        decreases self,
    {
        match self {
            LuaWidget::InternalChild(i) => *i == index,
            LuaWidget::Column(c) => count_mentions(&c.inner, index),
            LuaWidget::Row(c) => count_mentions(&c.inner, index),
            LuaWidget::Stack(c) => count_mentions(&c.inner, index),
            LuaWidget::Container(c) => c.inner.mentions(index),
            LuaWidget::Image(_) => false,
            LuaWidget::Text(_) => false,
            LuaWidget::Space(_) => false,
        }
    }
}

impl Clone for LuaWidget {
    fn clone(&self) -> (r: Self)
        ensures
            r@ == self@,
    {
        self.rebuilt(None)
    }
}

} // verus!
