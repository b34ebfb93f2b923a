use vstd::prelude::*;

verus! {

/// Why an operation on a layout was refused.
#[derive(Debug)]
pub enum LayoutError {
    /// A path names a child that its parent does not have.
    NoSuchChild,
    /// The root was named where only a node below it can be meant.
    RootHasNoParent,
    /// The layout has no root component.
    NoContent,
    /// Nothing is recorded for the node at the path.
    NoSettings,
    /// No script of that name is installed.
    UnknownComponent,
    /// No image is kept for the parameter.
    NoImage,
    /// The component has no build function.
    NoWidget,
    /// The scripting runtime failed, with its message.
    Script(String),
}

/// What an error says, but for the text that it carries.
pub open spec fn message_of(error: LayoutError) -> Seq<char> {
    match error {
        LayoutError::NoSuchChild => "invalid path (no such child at index)"@,
        LayoutError::RootHasNoParent => "cannot move root component"@,
        LayoutError::NoContent => "the layout has no component"@,
        LayoutError::NoSettings => "couldn't find component in layout from path"@,
        LayoutError::UnknownComponent => "couldn't find component in factories"@,
        LayoutError::NoImage => "couldn't find image in repository"@,
        LayoutError::NoWidget => "no widget lua function in component (could be a loading error!)"@,
        LayoutError::Script(message) => message@,
    }
}

impl LayoutError {
    /// What the error says, for the log.
    pub fn message(&self) -> (r: String)
        ensures
            r@ == message_of(*self),
    {
        match self {
            LayoutError::NoSuchChild => "invalid path (no such child at index)".to_owned(),
            LayoutError::RootHasNoParent => "cannot move root component".to_owned(),
            LayoutError::NoContent => "the layout has no component".to_owned(),
            LayoutError::NoSettings => "couldn't find component in layout from path".to_owned(),
            LayoutError::UnknownComponent => "couldn't find component in factories".to_owned(),
            LayoutError::NoImage => "couldn't find image in repository".to_owned(),
            LayoutError::NoWidget => {
                "no widget lua function in component (could be a loading error!)".to_owned()
            },
            LayoutError::Script(message) => message.clone(),
        }
    }
}

} // verus!
