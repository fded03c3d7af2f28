use vstd::prelude::*;
use crate::error::Error;
use crate::text::same;
use crate::xml::XmlNode;

verus! {

/// An instance that a component type requires.
#[derive(Clone, Debug, PartialEq)]
pub struct InstanceRequirement {
    pub name: String,
    pub type_: String,
}

impl InstanceRequirement {
    /// Whether `node` has all that must be there, in a form that can be read.
    pub open spec fn readable(node: &XmlNode) -> bool {
        &&& node.attr("name"@) is Some
        &&& node.attr("type"@) is Some
    }

    /// Whether this is what `node` says.
    pub open spec fn is_from(&self, node: &XmlNode) -> bool {
        &&& node.attr("name"@) == Some(self.name@)
        &&& node.attr("type"@) == Some(self.type_@)
    }

    /// Reads the element.
    pub fn from_node(node: &XmlNode) -> (r: Result<Self, Error>)
        ensures
            match r {
                Ok(v) => Self::readable(node) && v.is_from(node),
                Err(e) => !Self::readable(node) && e == Error::XmlParse,
            },
    {
        let name = node.required("name")?;
        let type_ = node.required("type")?;
        Ok(InstanceRequirement { name, type_ })
    }
}

/// What may stand inside a component type.
#[derive(Clone, Debug, PartialEq)]
pub enum ComponentTypeBody {
    Property(Property),
    Parameter(Parameter),
    DerivedParameter(DerivedParameter),
    IndexParameter(IndexParameter),
    Constant(Constant),
    Child(Child),
    Children(Children),
    Fixed(Fixed),
    Link(Link),
    ComponentReference(ComponentReference),
    Attachments(Attachments),
    EventPort(EventPort),
    Exposure(Exposure),
    Requirement(Requirement),
    ComponentRequirement(ComponentRequirement),
    InstanceRequirement(InstanceRequirement),
    Path(Path),
    Text(Text),
    Dynamics(Dynamics),
    Structure(Structure),
    Simulation(Simulation),
}

impl ComponentTypeBody {
    /// Whether `node` is an element that may stand here and can be read.
    #[verifier::opaque]
    pub open spec fn readable(node: &XmlNode) -> bool {
        if node.tag@ == "Property"@ {
            Property::readable(node)
        } else if node.tag@ == "Parameter"@ {
            Parameter::readable(node)
        } else if node.tag@ == "DerivedParameter"@ {
            DerivedParameter::readable(node)
        } else if node.tag@ == "IndexParameter"@ {
            IndexParameter::readable(node)
        } else if node.tag@ == "Constant"@ {
            Constant::readable(node)
        } else if node.tag@ == "Child"@ {
            Child::readable(node)
        } else {
            Self::readable_second(node)
        }
    }

    /// The same for the tags that follow.
    #[verifier::opaque]
    pub open spec fn readable_second(node: &XmlNode) -> bool {
        if node.tag@ == "Children"@ {
            Children::readable(node)
        } else if node.tag@ == "Fixed"@ {
            Fixed::readable(node)
        } else if node.tag@ == "Link"@ {
            Link::readable(node)
        } else if node.tag@ == "ComponentReference"@ {
            ComponentReference::readable(node)
        } else if node.tag@ == "Attachments"@ {
            Attachments::readable(node)
        } else if node.tag@ == "EventPort"@ {
            EventPort::readable(node)
        } else {
            Self::readable_third(node)
        }
    }

    /// The same for the tags that follow.
    #[verifier::opaque]
    pub open spec fn readable_third(node: &XmlNode) -> bool {
        if node.tag@ == "Exposure"@ {
            Exposure::readable(node)
        } else if node.tag@ == "Requirement"@ {
            Requirement::readable(node)
        } else if node.tag@ == "ComponentRequirement"@ {
            ComponentRequirement::readable(node)
        } else if node.tag@ == "InstanceRequirement"@ {
            InstanceRequirement::readable(node)
        } else if node.tag@ == "Path"@ {
            Path::readable(node)
        } else if node.tag@ == "Text"@ {
            Text::readable(node)
        } else {
            Self::readable_fourth(node)
        }
    }

    /// The same for the tags that follow.
    #[verifier::opaque]
    pub open spec fn readable_fourth(node: &XmlNode) -> bool {
        if node.tag@ == "Dynamics"@ {
            Dynamics::readable(node)
        } else if node.tag@ == "Structure"@ {
            Structure::readable(node)
        } else if node.tag@ == "Simulation"@ {
            Simulation::readable(node)
        } else {
            false
        }
    }

    /// Whether this is what `node` says.
    #[verifier::opaque]
    pub open spec fn is_from(&self, node: &XmlNode) -> bool {
        match self {
            ComponentTypeBody::Property(v) => node.tag@ == "Property"@ && v.is_from(node),
            ComponentTypeBody::Parameter(v) => node.tag@ == "Parameter"@ && v.is_from(node),
            ComponentTypeBody::DerivedParameter(v) => node.tag@ == "DerivedParameter"@ && v.is_from(node),
            ComponentTypeBody::IndexParameter(v) => node.tag@ == "IndexParameter"@ && v.is_from(node),
            ComponentTypeBody::Constant(v) => node.tag@ == "Constant"@ && v.is_from(node),
            ComponentTypeBody::Child(v) => node.tag@ == "Child"@ && v.is_from(node),
            ComponentTypeBody::Children(v) => node.tag@ == "Children"@ && v.is_from(node),
            ComponentTypeBody::Fixed(v) => node.tag@ == "Fixed"@ && v.is_from(node),
            ComponentTypeBody::Link(v) => node.tag@ == "Link"@ && v.is_from(node),
            ComponentTypeBody::ComponentReference(v) => node.tag@ == "ComponentReference"@ && v.is_from(node),
            ComponentTypeBody::Attachments(v) => node.tag@ == "Attachments"@ && v.is_from(node),
            ComponentTypeBody::EventPort(v) => node.tag@ == "EventPort"@ && v.is_from(node),
            ComponentTypeBody::Exposure(v) => node.tag@ == "Exposure"@ && v.is_from(node),
            ComponentTypeBody::Requirement(v) => node.tag@ == "Requirement"@ && v.is_from(node),
            ComponentTypeBody::ComponentRequirement(v) => node.tag@ == "ComponentRequirement"@ && v.is_from(node),
            ComponentTypeBody::InstanceRequirement(v) => node.tag@ == "InstanceRequirement"@ && v.is_from(node),
            ComponentTypeBody::Path(v) => node.tag@ == "Path"@ && v.is_from(node),
            ComponentTypeBody::Text(v) => node.tag@ == "Text"@ && v.is_from(node),
            ComponentTypeBody::Dynamics(v) => node.tag@ == "Dynamics"@ && v.is_from(node),
            ComponentTypeBody::Structure(v) => node.tag@ == "Structure"@ && v.is_from(node),
            ComponentTypeBody::Simulation(v) => node.tag@ == "Simulation"@ && v.is_from(node),
        }
    }

    /// Reads the element by its tag. An element with another tag, or one
    /// that cannot be read, is an error.
    pub fn from_node(node: &XmlNode) -> (r: Result<Self, Error>)
        ensures
            match r {
                Ok(v) => Self::readable(node) && v.is_from(node),
                Err(e) => !Self::readable(node) && e == Error::XmlParse,
            },
    {
        reveal(ComponentTypeBody::readable);
        reveal(ComponentTypeBody::is_from);
        let tag = node.tag.as_str();
        if same(tag, "Property") {
            match Property::from_node(node) {
                Ok(v) => Ok(ComponentTypeBody::Property(v)),
                Err(e) => Err(e),
            }
        } else if same(tag, "Parameter") {
            match Parameter::from_node(node) {
                Ok(v) => Ok(ComponentTypeBody::Parameter(v)),
                Err(e) => Err(e),
            }
        } else if same(tag, "DerivedParameter") {
            match DerivedParameter::from_node(node) {
                Ok(v) => Ok(ComponentTypeBody::DerivedParameter(v)),
                Err(e) => Err(e),
            }
        } else if same(tag, "IndexParameter") {
            match IndexParameter::from_node(node) {
                Ok(v) => Ok(ComponentTypeBody::IndexParameter(v)),
                Err(e) => Err(e),
            }
        } else if same(tag, "Constant") {
            match Constant::from_node(node) {
                Ok(v) => Ok(ComponentTypeBody::Constant(v)),
                Err(e) => Err(e),
            }
        } else if same(tag, "Child") {
            match Child::from_node(node) {
                Ok(v) => Ok(ComponentTypeBody::Child(v)),
                Err(e) => Err(e),
            }
        } else {
            Self::from_node_second(node)
        }
    }

    fn from_node_second(node: &XmlNode) -> (r: Result<Self, Error>)
        ensures
            match r {
                Ok(v) => Self::readable_second(node) && v.is_from(node),
                Err(e) => !Self::readable_second(node) && e == Error::XmlParse,
            },
    {
        reveal(ComponentTypeBody::readable_second);
        reveal(ComponentTypeBody::is_from);
        let tag = node.tag.as_str();
        if same(tag, "Children") {
            match Children::from_node(node) {
                Ok(v) => Ok(ComponentTypeBody::Children(v)),
                Err(e) => Err(e),
            }
        } else if same(tag, "Fixed") {
            match Fixed::from_node(node) {
                Ok(v) => Ok(ComponentTypeBody::Fixed(v)),
                Err(e) => Err(e),
            }
        } else if same(tag, "Link") {
            match Link::from_node(node) {
                Ok(v) => Ok(ComponentTypeBody::Link(v)),
                Err(e) => Err(e),
            }
        } else if same(tag, "ComponentReference") {
            match ComponentReference::from_node(node) {
                Ok(v) => Ok(ComponentTypeBody::ComponentReference(v)),
                Err(e) => Err(e),
            }
        } else if same(tag, "Attachments") {
            match Attachments::from_node(node) {
                Ok(v) => Ok(ComponentTypeBody::Attachments(v)),
                Err(e) => Err(e),
            }
        } else if same(tag, "EventPort") {
            match EventPort::from_node(node) {
                Ok(v) => Ok(ComponentTypeBody::EventPort(v)),
                Err(e) => Err(e),
            }
        } else {
            Self::from_node_third(node)
        }
    }

    fn from_node_third(node: &XmlNode) -> (r: Result<Self, Error>)
        ensures
            match r {
                Ok(v) => Self::readable_third(node) && v.is_from(node),
                Err(e) => !Self::readable_third(node) && e == Error::XmlParse,
            },
    {
        reveal(ComponentTypeBody::readable_third);
        reveal(ComponentTypeBody::is_from);
        let tag = node.tag.as_str();
        if same(tag, "Exposure") {
            match Exposure::from_node(node) {
                Ok(v) => Ok(ComponentTypeBody::Exposure(v)),
                Err(e) => Err(e),
            }
        } else if same(tag, "Requirement") {
            match Requirement::from_node(node) {
                Ok(v) => Ok(ComponentTypeBody::Requirement(v)),
                Err(e) => Err(e),
            }
        } else if same(tag, "ComponentRequirement") {
            match ComponentRequirement::from_node(node) {
                Ok(v) => Ok(ComponentTypeBody::ComponentRequirement(v)),
                Err(e) => Err(e),
            }
        } else if same(tag, "InstanceRequirement") {
            match InstanceRequirement::from_node(node) {
                Ok(v) => Ok(ComponentTypeBody::InstanceRequirement(v)),
                Err(e) => Err(e),
            }
        } else if same(tag, "Path") {
            match Path::from_node(node) {
                Ok(v) => Ok(ComponentTypeBody::Path(v)),
                Err(e) => Err(e),
            }
        } else if same(tag, "Text") {
            match Text::from_node(node) {
                Ok(v) => Ok(ComponentTypeBody::Text(v)),
                Err(e) => Err(e),
            }
        } else {
            Self::from_node_fourth(node)
        }
    }

    fn from_node_fourth(node: &XmlNode) -> (r: Result<Self, Error>)
        ensures
            match r {
                Ok(v) => Self::readable_fourth(node) && v.is_from(node),
                Err(e) => !Self::readable_fourth(node) && e == Error::XmlParse,
            },
    {
        reveal(ComponentTypeBody::readable_fourth);
        reveal(ComponentTypeBody::is_from);
        let tag = node.tag.as_str();
        if same(tag, "Dynamics") {
            match Dynamics::from_node(node) {
                Ok(v) => Ok(ComponentTypeBody::Dynamics(v)),
                Err(e) => Err(e),
            }
        } else if same(tag, "Structure") {
            match Structure::from_node(node) {
                Ok(v) => Ok(ComponentTypeBody::Structure(v)),
                Err(e) => Err(e),
            }
        } else if same(tag, "Simulation") {
            match Simulation::from_node(node) {
                Ok(v) => Ok(ComponentTypeBody::Simulation(v)),
                Err(e) => Err(e),
            }
        } else {
            Err(Error::XmlParse)
        }
    }
}

/// A component type as it is written.
#[derive(Clone, Debug, PartialEq)]
pub struct ComponentType {
    pub name: String,
    pub extends: Option<String>,
    pub description: Option<String>,
    pub body: Vec<ComponentTypeBody>,
}

impl ComponentType {
    /// Whether `node` has all that must be there, in a form that can be read.
    pub open spec fn readable(node: &XmlNode) -> bool {
        &&& node.attr("name"@) is Some
        &&& forall|i: int|
            0 <= i < node.children@.len() ==> ComponentTypeBody::readable(&#[trigger] node.children@[i])
    }

    /// Whether this is what `node` says.
    pub open spec fn is_from(&self, node: &XmlNode) -> bool {
        &&& node.attr("name"@) == Some(self.name@)
        &&& node.attr("extends"@) == self.extends.deep_view()
        &&& node.attr("description"@) == self.description.deep_view()
        &&& self.body@.len() == node.children@.len()
        &&& forall|i: int|
            0 <= i < self.body@.len() ==> (#[trigger] self.body@[i]).is_from(&node.children@[i])
    }

    /// Reads the element.
    pub fn from_node(node: &XmlNode) -> (r: Result<Self, Error>)
        ensures
            match r {
                Ok(v) => Self::readable(node) && v.is_from(node),
                Err(e) => !Self::readable(node) && e == Error::XmlParse,
            },
    {
        let mut body: Vec<ComponentTypeBody> = Vec::new();
        let mut i: usize = 0;
        while i < node.children.len()
            invariant
                i <= node.children@.len(),
                body@.len() == i,
                forall|j: int|
                    0 <= j < i ==> ComponentTypeBody::readable(&#[trigger] node.children@[j]),
                forall|j: int|
                    0 <= j < i ==> (#[trigger] body@[j]).is_from(&node.children@[j]),
            decreases node.children@.len() - i,
        {
            match ComponentTypeBody::from_node(&node.children[i]) {
                Ok(v) => {
                    body.push(v);
                },
                Err(e) => {
                    return Err(e);
                },
            }
            i += 1;
        }
        let name = node.required("name")?;
        let extends = node.optional("extends");
        let description = node.optional("description");
        Ok(ComponentType { name, extends, description, body })
    }
}

/// What may stand inside an event handler.
#[derive(Clone, Debug, PartialEq)]
pub enum OnEventBody {
    StateAssignment(StateAssignment),
    EventOut(EventOut),
}

impl OnEventBody {
    /// Whether `node` is an element that may stand here and can be read.
    #[verifier::opaque]
    pub open spec fn readable(node: &XmlNode) -> bool {
        if node.tag@ == "StateAssignment"@ {
            StateAssignment::readable(node)
        } else if node.tag@ == "EventOut"@ {
            EventOut::readable(node)
        } else {
            false
        }
    }

    /// Whether this is what `node` says.
    #[verifier::opaque]
    pub open spec fn is_from(&self, node: &XmlNode) -> bool {
        match self {
            OnEventBody::StateAssignment(v) => node.tag@ == "StateAssignment"@ && v.is_from(node),
            OnEventBody::EventOut(v) => node.tag@ == "EventOut"@ && v.is_from(node),
        }
    }

    /// Reads the element by its tag. An element with another tag, or one
    /// that cannot be read, is an error.
    pub fn from_node(node: &XmlNode) -> (r: Result<Self, Error>)
        ensures
            match r {
                Ok(v) => Self::readable(node) && v.is_from(node),
                Err(e) => !Self::readable(node) && e == Error::XmlParse,
            },
    {
        reveal(OnEventBody::readable);
        reveal(OnEventBody::is_from);
        let tag = node.tag.as_str();
        if same(tag, "StateAssignment") {
            match StateAssignment::from_node(node) {
                Ok(v) => Ok(OnEventBody::StateAssignment(v)),
                Err(e) => Err(e),
            }
        } else if same(tag, "EventOut") {
            match EventOut::from_node(node) {
                Ok(v) => Ok(OnEventBody::EventOut(v)),
                Err(e) => Err(e),
            }
        } else {
            Err(Error::XmlParse)
        }
    }
}

/// What happens when an event arrives at a port.
#[derive(Clone, Debug, PartialEq)]
pub struct OnEvent {
    pub port: String,
    pub body: Vec<OnEventBody>,
}

impl OnEvent {
    /// Whether `node` has all that must be there, in a form that can be read.
    pub open spec fn readable(node: &XmlNode) -> bool {
        &&& node.attr("port"@) is Some
        &&& forall|i: int|
            0 <= i < node.children@.len() ==> OnEventBody::readable(&#[trigger] node.children@[i])
    }

    /// Whether this is what `node` says.
    pub open spec fn is_from(&self, node: &XmlNode) -> bool {
        &&& node.attr("port"@) == Some(self.port@)
        &&& self.body@.len() == node.children@.len()
        &&& forall|i: int|
            0 <= i < self.body@.len() ==> (#[trigger] self.body@[i]).is_from(&node.children@[i])
    }

    /// Reads the element.
    pub fn from_node(node: &XmlNode) -> (r: Result<Self, Error>)
        ensures
            match r {
                Ok(v) => Self::readable(node) && v.is_from(node),
                Err(e) => !Self::readable(node) && e == Error::XmlParse,
            },
    {
        let mut body: Vec<OnEventBody> = Vec::new();
        let mut i: usize = 0;
        while i < node.children.len()
            invariant
                i <= node.children@.len(),
                body@.len() == i,
                forall|j: int|
                    0 <= j < i ==> OnEventBody::readable(&#[trigger] node.children@[j]),
                forall|j: int|
                    0 <= j < i ==> (#[trigger] body@[j]).is_from(&node.children@[j]),
            decreases node.children@.len() - i,
        {
            match OnEventBody::from_node(&node.children[i]) {
                Ok(v) => {
                    body.push(v);
                },
                Err(e) => {
                    return Err(e);
                },
            }
            i += 1;
        }
        let port = node.required("port")?;
        Ok(OnEvent { port, body })
    }
}

/// A child to be instantiated.
#[derive(Clone, Debug, PartialEq)]
pub struct ChildInstance {
    pub component: String,
}

impl ChildInstance {
    /// Whether `node` has all that must be there, in a form that can be read.
    pub open spec fn readable(node: &XmlNode) -> bool {
        &&& node.attr("component"@) is Some
    }

    /// Whether this is what `node` says.
    pub open spec fn is_from(&self, node: &XmlNode) -> bool {
        &&& node.attr("component"@) == Some(self.component@)
    }

    /// Reads the element.
    pub fn from_node(node: &XmlNode) -> (r: Result<Self, Error>)
        ensures
            match r {
                Ok(v) => Self::readable(node) && v.is_from(node),
                Err(e) => !Self::readable(node) && e == Error::XmlParse,
            },
    {
        let component = node.required("component")?;
        Ok(ChildInstance { component })
    }
}

/// An event to be recorded.
#[allow(non_snake_case)]
#[derive(Clone, Debug, PartialEq)]
pub struct EventRecord {
    pub quantity: String,
    pub eventPort: String,
}

impl EventRecord {
    /// Whether `node` has all that must be there, in a form that can be read.
    pub open spec fn readable(node: &XmlNode) -> bool {
        &&& node.attr("quantity"@) is Some
        &&& node.attr("eventPort"@) is Some
    }

    /// Whether this is what `node` says.
    pub open spec fn is_from(&self, node: &XmlNode) -> bool {
        &&& node.attr("quantity"@) == Some(self.quantity@)
        &&& node.attr("eventPort"@) == Some(self.eventPort@)
    }

    /// Reads the element.
    pub fn from_node(node: &XmlNode) -> (r: Result<Self, Error>)
        ensures
            match r {
                Ok(v) => Self::readable(node) && v.is_from(node),
                Err(e) => !Self::readable(node) && e == Error::XmlParse,
            },
    {
        let quantity = node.required("quantity")?;
        let eventPort = node.required("eventPort")?;
        Ok(EventRecord { quantity, eventPort })
    }
}

/// A component at the top of a document. Nothing of it is read here.
#[derive(Clone, Debug, PartialEq)]
pub struct Component {
}

impl Component {
    /// Whether `node` has all that must be there, in a form that can be read.
    pub open spec fn readable(node: &XmlNode) -> bool {
        true
    }

    /// Whether this is what `node` says.
    pub open spec fn is_from(&self, node: &XmlNode) -> bool {
        true
    }

    /// Reads the element.
    pub fn from_node(node: &XmlNode) -> (r: Result<Self, Error>)
        ensures
            match r {
                Ok(v) => Self::readable(node) && v.is_from(node),
                Err(e) => !Self::readable(node) && e == Error::XmlParse,
            },
    {
        Ok(Component {  })
    }
}

/// What may stand at the top of a document.
#[derive(Clone, Debug, PartialEq)]
pub enum LemsBody {
    Target(Target),
    Include(Include),
    Dimension(Dimension),
    Unit(Unit),
    Constant(Constant),
    ComponentType(ComponentType),
    Component(Component),
}

impl LemsBody {
    /// Whether `node` is an element that may stand here and can be read.
    #[verifier::opaque]
    pub open spec fn readable(node: &XmlNode) -> bool {
        if node.tag@ == "Target"@ {
            Target::readable(node)
        } else if node.tag@ == "Include"@ {
            Include::readable(node)
        } else if node.tag@ == "Dimension"@ {
            Dimension::readable(node)
        } else if node.tag@ == "Unit"@ {
            Unit::readable(node)
        } else if node.tag@ == "Constant"@ {
            Constant::readable(node)
        } else if node.tag@ == "ComponentType"@ {
            ComponentType::readable(node)
        } else {
            Self::readable_second(node)
        }
    }

    /// The same for the tags that follow.
    #[verifier::opaque]
    pub open spec fn readable_second(node: &XmlNode) -> bool {
        if node.tag@ == "Component"@ {
            Component::readable(node)
        } else {
            false
        }
    }

    /// Whether this is what `node` says.
    #[verifier::opaque]
    pub open spec fn is_from(&self, node: &XmlNode) -> bool {
        match self {
            LemsBody::Target(v) => node.tag@ == "Target"@ && v.is_from(node),
            LemsBody::Include(v) => node.tag@ == "Include"@ && v.is_from(node),
            LemsBody::Dimension(v) => node.tag@ == "Dimension"@ && v.is_from(node),
            LemsBody::Unit(v) => node.tag@ == "Unit"@ && v.is_from(node),
            LemsBody::Constant(v) => node.tag@ == "Constant"@ && v.is_from(node),
            LemsBody::ComponentType(v) => node.tag@ == "ComponentType"@ && v.is_from(node),
            LemsBody::Component(v) => node.tag@ == "Component"@ && v.is_from(node),
        }
    }

    /// Reads the element by its tag. An element with another tag, or one
    /// that cannot be read, is an error.
    pub fn from_node(node: &XmlNode) -> (r: Result<Self, Error>)
        ensures
            match r {
                Ok(v) => Self::readable(node) && v.is_from(node),
                Err(e) => !Self::readable(node) && e == Error::XmlParse,
            },
    {
        reveal(LemsBody::readable);
        reveal(LemsBody::is_from);
        let tag = node.tag.as_str();
        if same(tag, "Target") {
            match Target::from_node(node) {
                Ok(v) => Ok(LemsBody::Target(v)),
                Err(e) => Err(e),
            }
        } else if same(tag, "Include") {
            match Include::from_node(node) {
                Ok(v) => Ok(LemsBody::Include(v)),
                Err(e) => Err(e),
            }
        } else if same(tag, "Dimension") {
            match Dimension::from_node(node) {
                Ok(v) => Ok(LemsBody::Dimension(v)),
                Err(e) => Err(e),
            }
        } else if same(tag, "Unit") {
            match Unit::from_node(node) {
                Ok(v) => Ok(LemsBody::Unit(v)),
                Err(e) => Err(e),
            }
        } else if same(tag, "Constant") {
            match Constant::from_node(node) {
                Ok(v) => Ok(LemsBody::Constant(v)),
                Err(e) => Err(e),
            }
        } else if same(tag, "ComponentType") {
            match ComponentType::from_node(node) {
                Ok(v) => Ok(LemsBody::ComponentType(v)),
                Err(e) => Err(e),
            }
        } else {
            Self::from_node_second(node)
        }
    }

    fn from_node_second(node: &XmlNode) -> (r: Result<Self, Error>)
        ensures
            match r {
                Ok(v) => Self::readable_second(node) && v.is_from(node),
                Err(e) => !Self::readable_second(node) && e == Error::XmlParse,
            },
    {
        reveal(LemsBody::readable_second);
        reveal(LemsBody::is_from);
        let tag = node.tag.as_str();
        if same(tag, "Component") {
            match Component::from_node(node) {
                Ok(v) => Ok(LemsBody::Component(v)),
                Err(e) => Err(e),
            }
        } else {
            Err(Error::XmlParse)
        }
    }
}

/// A document as it is written.
#[derive(Clone, Debug, PartialEq)]
pub struct Lems {
    pub description: Option<String>,
    pub body: Vec<LemsBody>,
}

impl Lems {
    /// Whether `node` has all that must be there, in a form that can be read.
    pub open spec fn readable(node: &XmlNode) -> bool {
        &&& forall|i: int|
            0 <= i < node.children@.len() ==> LemsBody::readable(&#[trigger] node.children@[i])
    }

    /// Whether this is what `node` says.
    pub open spec fn is_from(&self, node: &XmlNode) -> bool {
        &&& node.attr("description"@) == self.description.deep_view()
        &&& self.body@.len() == node.children@.len()
        &&& forall|i: int|
            0 <= i < self.body@.len() ==> (#[trigger] self.body@[i]).is_from(&node.children@[i])
    }

    /// Reads the element.
    pub fn from_node(node: &XmlNode) -> (r: Result<Self, Error>)
        ensures
            match r {
                Ok(v) => Self::readable(node) && v.is_from(node),
                Err(e) => !Self::readable(node) && e == Error::XmlParse,
            },
    {
        let mut body: Vec<LemsBody> = Vec::new();
        let mut i: usize = 0;
        while i < node.children.len()
            invariant
                i <= node.children@.len(),
                body@.len() == i,
                forall|j: int|
                    0 <= j < i ==> LemsBody::readable(&#[trigger] node.children@[j]),
                forall|j: int|
                    0 <= j < i ==> (#[trigger] body@[j]).is_from(&node.children@[j]),
            decreases node.children@.len() - i,
        {
            match LemsBody::from_node(&node.children[i]) {
                Ok(v) => {
                    body.push(v);
                },
                Err(e) => {
                    return Err(e);
                },
            }
            i += 1;
        }
        let description = node.optional("description");
        Ok(Lems { description, body })
    }
}

/// A parameter that holds text.
#[derive(Clone, Debug, PartialEq)]
pub struct Text {
    pub name: String,
    pub description: Option<String>,
}

impl Text {
    /// Whether `node` has all that must be there, in a form that can be read.
    pub open spec fn readable(node: &XmlNode) -> bool {
        &&& node.attr("name"@) is Some
    }

    /// Whether this is what `node` says.
    pub open spec fn is_from(&self, node: &XmlNode) -> bool {
        &&& node.attr("name"@) == Some(self.name@)
        &&& node.attr("description"@) == self.description.deep_view()
    }

    /// Reads the element.
    pub fn from_node(node: &XmlNode) -> (r: Result<Self, Error>)
        ensures
            match r {
                Ok(v) => Self::readable(node) && v.is_from(node),
                Err(e) => !Self::readable(node) && e == Error::XmlParse,
            },
    {
        let name = node.required("name")?;
        let description = node.optional("description");
        Ok(Text { name, description })
    }
}

/// The derivative of a state variable with respect to time.
#[derive(Clone, Debug, PartialEq)]
pub struct TimeDerivative {
    pub variable: String,
    pub value: String,
}

impl TimeDerivative {
    /// Whether `node` has all that must be there, in a form that can be read.
    pub open spec fn readable(node: &XmlNode) -> bool {
        &&& node.attr("variable"@) is Some
        &&& node.attr("value"@) is Some
    }

    /// Whether this is what `node` says.
    pub open spec fn is_from(&self, node: &XmlNode) -> bool {
        &&& node.attr("variable"@) == Some(self.variable@)
        &&& node.attr("value"@) == Some(self.value@)
    }

    /// Reads the element.
    pub fn from_node(node: &XmlNode) -> (r: Result<Self, Error>)
        ensures
            match r {
                Ok(v) => Self::readable(node) && v.is_from(node),
                Err(e) => !Self::readable(node) && e == Error::XmlParse,
            },
    {
        let variable = node.required("variable")?;
        let value = node.required("value")?;
        Ok(TimeDerivative { variable, value })
    }
}

/// A change to another regime.
#[derive(Clone, Debug, PartialEq)]
pub struct Transition {
    pub regime: String,
}

impl Transition {
    /// Whether `node` has all that must be there, in a form that can be read.
    pub open spec fn readable(node: &XmlNode) -> bool {
        &&& node.attr("regime"@) is Some
    }

    /// Whether this is what `node` says.
    pub open spec fn is_from(&self, node: &XmlNode) -> bool {
        &&& node.attr("regime"@) == Some(self.regime@)
    }

    /// Reads the element.
    pub fn from_node(node: &XmlNode) -> (r: Result<Self, Error>)
        ensures
            match r {
                Ok(v) => Self::readable(node) && v.is_from(node),
                Err(e) => !Self::readable(node) && e == Error::XmlParse,
            },
    {
        let regime = node.required("regime")?;
        Ok(Transition { regime })
    }
}

/// What may stand inside a structure.
#[derive(Clone, Debug, PartialEq)]
pub enum StructureBody {
    ChildInstance(ChildInstance),
    MultiInstantiate(MultiInstantiate),
    ForEach(ForEach),
    With(With),
    Tunnel(Tunnel),
    EventConnection(EventConnection),
}

impl StructureBody {
    /// Whether `node` is an element that may stand here and can be read.
    #[verifier::opaque]
    pub open spec fn readable(node: &XmlNode) -> bool {
        if node.tag@ == "ChildInstance"@ {
            ChildInstance::readable(node)
        } else if node.tag@ == "MultiInstantiate"@ {
            MultiInstantiate::readable(node)
        } else if node.tag@ == "ForEach"@ {
            ForEach::readable(node)
        } else if node.tag@ == "With"@ {
            With::readable(node)
        } else if node.tag@ == "Tunnel"@ {
            Tunnel::readable(node)
        } else if node.tag@ == "EventConnection"@ {
            EventConnection::readable(node)
        } else {
            false
        }
    }

    /// Whether this is what `node` says.
    #[verifier::opaque]
    pub open spec fn is_from(&self, node: &XmlNode) -> bool {
        match self {
            StructureBody::ChildInstance(v) => node.tag@ == "ChildInstance"@ && v.is_from(node),
            StructureBody::MultiInstantiate(v) => node.tag@ == "MultiInstantiate"@ && v.is_from(node),
            StructureBody::ForEach(v) => node.tag@ == "ForEach"@ && v.is_from(node),
            StructureBody::With(v) => node.tag@ == "With"@ && v.is_from(node),
            StructureBody::Tunnel(v) => node.tag@ == "Tunnel"@ && v.is_from(node),
            StructureBody::EventConnection(v) => node.tag@ == "EventConnection"@ && v.is_from(node),
        }
    }

    /// Reads the element by its tag. An element with another tag, or one
    /// that cannot be read, is an error.
    pub fn from_node(node: &XmlNode) -> (r: Result<Self, Error>)
        ensures
            match r {
                Ok(v) => Self::readable(node) && v.is_from(node),
                Err(e) => !Self::readable(node) && e == Error::XmlParse,
            },
    {
        reveal(StructureBody::readable);
        reveal(StructureBody::is_from);
        let tag = node.tag.as_str();
        if same(tag, "ChildInstance") {
            match ChildInstance::from_node(node) {
                Ok(v) => Ok(StructureBody::ChildInstance(v)),
                Err(e) => Err(e),
            }
        } else if same(tag, "MultiInstantiate") {
            match MultiInstantiate::from_node(node) {
                Ok(v) => Ok(StructureBody::MultiInstantiate(v)),
                Err(e) => Err(e),
            }
        } else if same(tag, "ForEach") {
            match ForEach::from_node(node) {
                Ok(v) => Ok(StructureBody::ForEach(v)),
                Err(e) => Err(e),
            }
        } else if same(tag, "With") {
            match With::from_node(node) {
                Ok(v) => Ok(StructureBody::With(v)),
                Err(e) => Err(e),
            }
        } else if same(tag, "Tunnel") {
            match Tunnel::from_node(node) {
                Ok(v) => Ok(StructureBody::Tunnel(v)),
                Err(e) => Err(e),
            }
        } else if same(tag, "EventConnection") {
            match EventConnection::from_node(node) {
                Ok(v) => Ok(StructureBody::EventConnection(v)),
                Err(e) => Err(e),
            }
        } else {
            Err(Error::XmlParse)
        }
    }
}

/// How instances are built from a component type.
#[derive(Clone, Debug, PartialEq)]
pub struct Structure {
    pub body: Vec<StructureBody>,
}

impl Structure {
    /// Whether `node` has all that must be there, in a form that can be read.
    pub open spec fn readable(node: &XmlNode) -> bool {
        &&& forall|i: int|
            0 <= i < node.children@.len() ==> StructureBody::readable(&#[trigger] node.children@[i])
    }

    /// Whether this is what `node` says.
    pub open spec fn is_from(&self, node: &XmlNode) -> bool {
        &&& self.body@.len() == node.children@.len()
        &&& forall|i: int|
            0 <= i < self.body@.len() ==> (#[trigger] self.body@[i]).is_from(&node.children@[i])
    }

    /// Reads the element.
    pub fn from_node(node: &XmlNode) -> (r: Result<Self, Error>)
        ensures
            match r {
                Ok(v) => Self::readable(node) && v.is_from(node),
                Err(e) => !Self::readable(node) && e == Error::XmlParse,
            },
    {
        let mut body: Vec<StructureBody> = Vec::new();
        let mut i: usize = 0;
        while i < node.children.len()
            invariant
                i <= node.children@.len(),
                body@.len() == i,
                forall|j: int|
                    0 <= j < i ==> StructureBody::readable(&#[trigger] node.children@[j]),
                forall|j: int|
                    0 <= j < i ==> (#[trigger] body@[j]).is_from(&node.children@[j]),
            decreases node.children@.len() - i,
        {
            match StructureBody::from_node(&node.children[i]) {
                Ok(v) => {
                    body.push(v);
                },
                Err(e) => {
                    return Err(e);
                },
            }
            i += 1;
        }
        Ok(Structure { body })
    }
}

/// Another file to be read.
#[derive(Clone, Debug, PartialEq)]
pub struct Include {
    pub file: String,
}

impl Include {
    /// Whether `node` has all that must be there, in a form that can be read.
    pub open spec fn readable(node: &XmlNode) -> bool {
        &&& node.attr("file"@) is Some
    }

    /// Whether this is what `node` says.
    pub open spec fn is_from(&self, node: &XmlNode) -> bool {
        &&& node.attr("file"@) == Some(self.file@)
    }

    /// Reads the element.
    pub fn from_node(node: &XmlNode) -> (r: Result<Self, Error>)
        ensures
            match r {
                Ok(v) => Self::readable(node) && v.is_from(node),
                Err(e) => !Self::readable(node) && e == Error::XmlParse,
            },
    {
        let file = node.required("file")?;
        Ok(Include { file })
    }
}

/// A quantity to be recorded.
#[allow(non_snake_case)]
#[derive(Clone, Debug, PartialEq)]
pub struct Record {
    pub quantity: String,
    pub timeScale: Option<String>,
    pub scale: Option<String>,
    pub color: Option<String>,
}

impl Record {
    /// Whether `node` has all that must be there, in a form that can be read.
    pub open spec fn readable(node: &XmlNode) -> bool {
        &&& node.attr("quantity"@) is Some
    }

    /// Whether this is what `node` says.
    pub open spec fn is_from(&self, node: &XmlNode) -> bool {
        &&& node.attr("quantity"@) == Some(self.quantity@)
        &&& node.attr("timeScale"@) == self.timeScale.deep_view()
        &&& node.attr("scale"@) == self.scale.deep_view()
        &&& node.attr("color"@) == self.color.deep_view()
    }

    /// Reads the element.
    pub fn from_node(node: &XmlNode) -> (r: Result<Self, Error>)
        ensures
            match r {
                Ok(v) => Self::readable(node) && v.is_from(node),
                Err(e) => !Self::readable(node) && e == Error::XmlParse,
            },
    {
        let quantity = node.required("quantity")?;
        let timeScale = node.optional("timeScale");
        let scale = node.optional("scale");
        let color = node.optional("color");
        Ok(Record { quantity, timeScale, scale, color })
    }
}

/// A unit of a dimension. Scale and offset are kept as they are written.
#[derive(Clone, Debug, PartialEq)]
pub struct Unit {
    pub symbol: String,
    pub dimension: String,
    pub power: i64,
    pub scale: String,
    pub offset: String,
}

impl Unit {
    /// Whether `node` has all that must be there, in a form that can be read.
    pub open spec fn readable(node: &XmlNode) -> bool {
        &&& node.attr("symbol"@) is Some
        &&& node.attr("dimension"@) is Some
        &&& node.int_attr_ok("power"@)
    }

    /// Whether this is what `node` says.
    pub open spec fn is_from(&self, node: &XmlNode) -> bool {
        &&& node.attr("symbol"@) == Some(self.symbol@)
        &&& node.attr("dimension"@) == Some(self.dimension@)
        &&& node.int_attr_or("power"@, 0) == Some(self.power as int)
        &&& node.attr_or("scale"@, "1"@) == self.scale@
        &&& node.attr_or("offset"@, "0"@) == self.offset@
    }

    /// Reads the element.
    pub fn from_node(node: &XmlNode) -> (r: Result<Self, Error>)
        ensures
            match r {
                Ok(v) => Self::readable(node) && v.is_from(node),
                Err(e) => !Self::readable(node) && e == Error::XmlParse,
            },
    {
        let symbol = node.required("symbol")?;
        let dimension = node.required("dimension")?;
        let power = node.int_or("power", 0)?;
        let scale = node.or_default("scale", "1");
        let offset = node.or_default("offset", "0");
        Ok(Unit { symbol, dimension, power, scale, offset })
    }
}

/// A reference to a component elsewhere.
#[derive(Clone, Debug, PartialEq)]
pub struct Link {
    pub name: String,
    pub type_: String,
    pub description: Option<String>,
}

impl Link {
    /// Whether `node` has all that must be there, in a form that can be read.
    pub open spec fn readable(node: &XmlNode) -> bool {
        &&& node.attr("name"@) is Some
        &&& node.attr("type"@) is Some
    }

    /// Whether this is what `node` says.
    pub open spec fn is_from(&self, node: &XmlNode) -> bool {
        &&& node.attr("name"@) == Some(self.name@)
        &&& node.attr("type"@) == Some(self.type_@)
        &&& node.attr("description"@) == self.description.deep_view()
    }

    /// Reads the element.
    pub fn from_node(node: &XmlNode) -> (r: Result<Self, Error>)
        ensures
            match r {
                Ok(v) => Self::readable(node) && v.is_from(node),
                Err(e) => !Self::readable(node) && e == Error::XmlParse,
            },
    {
        let name = node.required("name")?;
        let type_ = node.required("type")?;
        let description = node.optional("description");
        Ok(Link { name, type_, description })
    }
}

/// Several instances of one component.
#[derive(Clone, Debug, PartialEq)]
pub struct MultiInstantiate {
    pub component: String,
    pub number: String,
}

impl MultiInstantiate {
    /// Whether `node` has all that must be there, in a form that can be read.
    pub open spec fn readable(node: &XmlNode) -> bool {
        &&& node.attr("component"@) is Some
        &&& node.attr("number"@) is Some
    }

    /// Whether this is what `node` says.
    pub open spec fn is_from(&self, node: &XmlNode) -> bool {
        &&& node.attr("component"@) == Some(self.component@)
        &&& node.attr("number"@) == Some(self.number@)
    }

    /// Reads the element.
    pub fn from_node(node: &XmlNode) -> (r: Result<Self, Error>)
        ensures
            match r {
                Ok(v) => Self::readable(node) && v.is_from(node),
                Err(e) => !Self::readable(node) && e == Error::XmlParse,
            },
    {
        let component = node.required("component")?;
        let number = node.required("number")?;
        Ok(MultiInstantiate { component, number })
    }
}

/// A named constant.
#[derive(Clone, Debug, PartialEq)]
pub struct Constant {
    pub name: String,
    pub dimension: String,
    pub value: String,
    pub description: Option<String>,
}

impl Constant {
    /// Whether `node` has all that must be there, in a form that can be read.
    pub open spec fn readable(node: &XmlNode) -> bool {
        &&& node.attr("name"@) is Some
        &&& node.attr("value"@) is Some
    }

    /// Whether this is what `node` says.
    pub open spec fn is_from(&self, node: &XmlNode) -> bool {
        &&& node.attr("name"@) == Some(self.name@)
        &&& node.attr_or("dimension"@, "none"@) == self.dimension@
        &&& node.attr("value"@) == Some(self.value@)
        &&& node.attr("description"@) == self.description.deep_view()
    }

    /// Reads the element.
    pub fn from_node(node: &XmlNode) -> (r: Result<Self, Error>)
        ensures
            match r {
                Ok(v) => Self::readable(node) && v.is_from(node),
                Err(e) => !Self::readable(node) && e == Error::XmlParse,
            },
    {
        let name = node.required("name")?;
        let dimension = node.or_default("dimension", "none");
        let value = node.required("value")?;
        let description = node.optional("description");
        Ok(Constant { name, dimension, value, description })
    }
}

/// The component to be run.
#[allow(non_snake_case)]
#[derive(Clone, Debug, PartialEq)]
pub struct Target {
    pub component: String,
    pub reportFile: Option<String>,
    pub timesFile: Option<String>,
}

impl Target {
    /// Whether `node` has all that must be there, in a form that can be read.
    pub open spec fn readable(node: &XmlNode) -> bool {
        &&& node.attr("component"@) is Some
    }

    /// Whether this is what `node` says.
    pub open spec fn is_from(&self, node: &XmlNode) -> bool {
        &&& node.attr("component"@) == Some(self.component@)
        &&& node.attr("reportFile"@) == self.reportFile.deep_view()
        &&& node.attr("timesFile"@) == self.timesFile.deep_view()
    }

    /// Reads the element.
    pub fn from_node(node: &XmlNode) -> (r: Result<Self, Error>)
        ensures
            match r {
                Ok(v) => Self::readable(node) && v.is_from(node),
                Err(e) => !Self::readable(node) && e == Error::XmlParse,
            },
    {
        let component = node.required("component")?;
        let reportFile = node.optional("reportFile");
        let timesFile = node.optional("timesFile");
        Ok(Target { component, reportFile, timesFile })
    }
}

/// A name with a dimension.
#[derive(Clone, Debug, PartialEq)]
pub struct NamedDimensionalType {
    pub name: String,
    pub dimension: String,
    pub description: Option<String>,
}

impl NamedDimensionalType {
    /// Whether `node` has all that must be there, in a form that can be read.
    pub open spec fn readable(node: &XmlNode) -> bool {
        &&& node.attr("name"@) is Some
    }

    /// Whether this is what `node` says.
    pub open spec fn is_from(&self, node: &XmlNode) -> bool {
        &&& node.attr("name"@) == Some(self.name@)
        &&& node.attr_or("dimension"@, "none"@) == self.dimension@
        &&& node.attr("description"@) == self.description.deep_view()
    }

    /// Reads the element.
    pub fn from_node(node: &XmlNode) -> (r: Result<Self, Error>)
        ensures
            match r {
                Ok(v) => Self::readable(node) && v.is_from(node),
                Err(e) => !Self::readable(node) && e == Error::XmlParse,
            },
    {
        let name = node.required("name")?;
        let dimension = node.or_default("dimension", "none");
        let description = node.optional("description");
        Ok(NamedDimensionalType { name, dimension, description })
    }
}

/// What may stand inside a loop over instances.
#[derive(Clone, Debug, PartialEq)]
pub enum ForEachBody {
    MultiInstantiate(MultiInstantiate),
}

impl ForEachBody {
    /// Whether `node` is an element that may stand here and can be read.
    #[verifier::opaque]
    pub open spec fn readable(node: &XmlNode) -> bool {
        if node.tag@ == "MultiInstantiate"@ {
            MultiInstantiate::readable(node)
        } else {
            false
        }
    }

    /// Whether this is what `node` says.
    #[verifier::opaque]
    pub open spec fn is_from(&self, node: &XmlNode) -> bool {
        match self {
            ForEachBody::MultiInstantiate(v) => node.tag@ == "MultiInstantiate"@ && v.is_from(node),
        }
    }

    /// Reads the element by its tag. An element with another tag, or one
    /// that cannot be read, is an error.
    pub fn from_node(node: &XmlNode) -> (r: Result<Self, Error>)
        ensures
            match r {
                Ok(v) => Self::readable(node) && v.is_from(node),
                Err(e) => !Self::readable(node) && e == Error::XmlParse,
            },
    {
        reveal(ForEachBody::readable);
        reveal(ForEachBody::is_from);
        let tag = node.tag.as_str();
        if same(tag, "MultiInstantiate") {
            match MultiInstantiate::from_node(node) {
                Ok(v) => Ok(ForEachBody::MultiInstantiate(v)),
                Err(e) => Err(e),
            }
        } else {
            Err(Error::XmlParse)
        }
    }
}

/// A loop over instances.
#[derive(Clone, Debug, PartialEq)]
pub struct ForEach {
    pub instances: String,
    pub as_: String,
    pub body: Vec<ForEachBody>,
}

impl ForEach {
    /// Whether `node` has all that must be there, in a form that can be read.
    pub open spec fn readable(node: &XmlNode) -> bool {
        &&& node.attr("instances"@) is Some
        &&& node.attr("as"@) is Some
        &&& forall|i: int|
            0 <= i < node.children@.len() ==> ForEachBody::readable(&#[trigger] node.children@[i])
    }

    /// Whether this is what `node` says.
    pub open spec fn is_from(&self, node: &XmlNode) -> bool {
        &&& node.attr("instances"@) == Some(self.instances@)
        &&& node.attr("as"@) == Some(self.as_@)
        &&& self.body@.len() == node.children@.len()
        &&& forall|i: int|
            0 <= i < self.body@.len() ==> (#[trigger] self.body@[i]).is_from(&node.children@[i])
    }

    /// Reads the element.
    pub fn from_node(node: &XmlNode) -> (r: Result<Self, Error>)
        ensures
            match r {
                Ok(v) => Self::readable(node) && v.is_from(node),
                Err(e) => !Self::readable(node) && e == Error::XmlParse,
            },
    {
        let mut body: Vec<ForEachBody> = Vec::new();
        let mut i: usize = 0;
        while i < node.children.len()
            invariant
                i <= node.children@.len(),
                body@.len() == i,
                forall|j: int|
                    0 <= j < i ==> ForEachBody::readable(&#[trigger] node.children@[j]),
                forall|j: int|
                    0 <= j < i ==> (#[trigger] body@[j]).is_from(&node.children@[j]),
            decreases node.children@.len() - i,
        {
            match ForEachBody::from_node(&node.children[i]) {
                Ok(v) => {
                    body.push(v);
                },
                Err(e) => {
                    return Err(e);
                },
            }
            i += 1;
        }
        let instances = node.required("instances")?;
        let as_ = node.required("as")?;
        Ok(ForEach { instances, as_, body })
    }
}

/// A reference to a component by name.
#[derive(Clone, Debug, PartialEq)]
pub struct ComponentReference {
    pub name: String,
    pub type_: String,
    pub local: Option<String>,
}

impl ComponentReference {
    /// Whether `node` has all that must be there, in a form that can be read.
    pub open spec fn readable(node: &XmlNode) -> bool {
        &&& node.attr("name"@) is Some
        &&& node.attr("type"@) is Some
    }

    /// Whether this is what `node` says.
    pub open spec fn is_from(&self, node: &XmlNode) -> bool {
        &&& node.attr("name"@) == Some(self.name@)
        &&& node.attr("type"@) == Some(self.type_@)
        &&& node.attr("local"@) == self.local.deep_view()
    }

    /// Reads the element.
    pub fn from_node(node: &XmlNode) -> (r: Result<Self, Error>)
        ensures
            match r {
                Ok(v) => Self::readable(node) && v.is_from(node),
                Err(e) => !Self::readable(node) && e == Error::XmlParse,
            },
    {
        let name = node.required("name")?;
        let type_ = node.required("type")?;
        let local = node.optional("local");
        Ok(ComponentReference { name, type_, local })
    }
}

/// A slot for one component.
#[derive(Clone, Debug, PartialEq)]
pub struct Child {
    pub name: String,
    pub type_: String,
    pub description: Option<String>,
}

impl Child {
    /// Whether `node` has all that must be there, in a form that can be read.
    pub open spec fn readable(node: &XmlNode) -> bool {
        &&& node.attr("name"@) is Some
        &&& node.attr("type"@) is Some
    }

    /// Whether this is what `node` says.
    pub open spec fn is_from(&self, node: &XmlNode) -> bool {
        &&& node.attr("name"@) == Some(self.name@)
        &&& node.attr("type"@) == Some(self.type_@)
        &&& node.attr("description"@) == self.description.deep_view()
    }

    /// Reads the element.
    pub fn from_node(node: &XmlNode) -> (r: Result<Self, Error>)
        ensures
            match r {
                Ok(v) => Self::readable(node) && v.is_from(node),
                Err(e) => !Self::readable(node) && e == Error::XmlParse,
            },
    {
        let name = node.required("name")?;
        let type_ = node.required("type")?;
        let description = node.optional("description");
        Ok(Child { name, type_, description })
    }
}

/// What may stand inside a simulation.
#[derive(Clone, Debug, PartialEq)]
pub enum SimulationBody {
    DataDisplay(DataDisplay),
    Record(Record),
    EventRecord(EventRecord),
    Run(Run),
    DataWriter(DataWriter),
    EventWriter(EventWriter),
}

impl SimulationBody {
    /// Whether `node` is an element that may stand here and can be read.
    #[verifier::opaque]
    pub open spec fn readable(node: &XmlNode) -> bool {
        if node.tag@ == "DataDisplay"@ {
            DataDisplay::readable(node)
        } else if node.tag@ == "Record"@ {
            Record::readable(node)
        } else if node.tag@ == "EventRecord"@ {
            EventRecord::readable(node)
        } else if node.tag@ == "Run"@ {
            Run::readable(node)
        } else if node.tag@ == "DataWriter"@ {
            DataWriter::readable(node)
        } else if node.tag@ == "EventWriter"@ {
            EventWriter::readable(node)
        } else {
            false
        }
    }

    /// Whether this is what `node` says.
    #[verifier::opaque]
    pub open spec fn is_from(&self, node: &XmlNode) -> bool {
        match self {
            SimulationBody::DataDisplay(v) => node.tag@ == "DataDisplay"@ && v.is_from(node),
            SimulationBody::Record(v) => node.tag@ == "Record"@ && v.is_from(node),
            SimulationBody::EventRecord(v) => node.tag@ == "EventRecord"@ && v.is_from(node),
            SimulationBody::Run(v) => node.tag@ == "Run"@ && v.is_from(node),
            SimulationBody::DataWriter(v) => node.tag@ == "DataWriter"@ && v.is_from(node),
            SimulationBody::EventWriter(v) => node.tag@ == "EventWriter"@ && v.is_from(node),
        }
    }

    /// Reads the element by its tag. An element with another tag, or one
    /// that cannot be read, is an error.
    pub fn from_node(node: &XmlNode) -> (r: Result<Self, Error>)
        ensures
            match r {
                Ok(v) => Self::readable(node) && v.is_from(node),
                Err(e) => !Self::readable(node) && e == Error::XmlParse,
            },
    {
        reveal(SimulationBody::readable);
        reveal(SimulationBody::is_from);
        let tag = node.tag.as_str();
        if same(tag, "DataDisplay") {
            match DataDisplay::from_node(node) {
                Ok(v) => Ok(SimulationBody::DataDisplay(v)),
                Err(e) => Err(e),
            }
        } else if same(tag, "Record") {
            match Record::from_node(node) {
                Ok(v) => Ok(SimulationBody::Record(v)),
                Err(e) => Err(e),
            }
        } else if same(tag, "EventRecord") {
            match EventRecord::from_node(node) {
                Ok(v) => Ok(SimulationBody::EventRecord(v)),
                Err(e) => Err(e),
            }
        } else if same(tag, "Run") {
            match Run::from_node(node) {
                Ok(v) => Ok(SimulationBody::Run(v)),
                Err(e) => Err(e),
            }
        } else if same(tag, "DataWriter") {
            match DataWriter::from_node(node) {
                Ok(v) => Ok(SimulationBody::DataWriter(v)),
                Err(e) => Err(e),
            }
        } else if same(tag, "EventWriter") {
            match EventWriter::from_node(node) {
                Ok(v) => Ok(SimulationBody::EventWriter(v)),
                Err(e) => Err(e),
            }
        } else {
            Err(Error::XmlParse)
        }
    }
}

/// How a component is run and what is written down.
#[derive(Clone, Debug, PartialEq)]
pub struct Simulation {
    pub body: Vec<SimulationBody>,
}

impl Simulation {
    /// Whether `node` has all that must be there, in a form that can be read.
    pub open spec fn readable(node: &XmlNode) -> bool {
        &&& forall|i: int|
            0 <= i < node.children@.len() ==> SimulationBody::readable(&#[trigger] node.children@[i])
    }

    /// Whether this is what `node` says.
    pub open spec fn is_from(&self, node: &XmlNode) -> bool {
        &&& self.body@.len() == node.children@.len()
        &&& forall|i: int|
            0 <= i < self.body@.len() ==> (#[trigger] self.body@[i]).is_from(&node.children@[i])
    }

    /// Reads the element.
    pub fn from_node(node: &XmlNode) -> (r: Result<Self, Error>)
        ensures
            match r {
                Ok(v) => Self::readable(node) && v.is_from(node),
                Err(e) => !Self::readable(node) && e == Error::XmlParse,
            },
    {
        let mut body: Vec<SimulationBody> = Vec::new();
        let mut i: usize = 0;
        while i < node.children.len()
            invariant
                i <= node.children@.len(),
                body@.len() == i,
                forall|j: int|
                    0 <= j < i ==> SimulationBody::readable(&#[trigger] node.children@[j]),
                forall|j: int|
                    0 <= j < i ==> (#[trigger] body@[j]).is_from(&node.children@[j]),
            decreases node.children@.len() - i,
        {
            match SimulationBody::from_node(&node.children[i]) {
                Ok(v) => {
                    body.push(v);
                },
                Err(e) => {
                    return Err(e);
                },
            }
            i += 1;
        }
        Ok(Simulation { body })
    }
}

/// An event sent out of a port.
#[derive(Clone, Debug, PartialEq)]
pub struct EventOut {
    pub port: String,
}

impl EventOut {
    /// Whether `node` has all that must be there, in a form that can be read.
    pub open spec fn readable(node: &XmlNode) -> bool {
        &&& node.attr("port"@) is Some
    }

    /// Whether this is what `node` says.
    pub open spec fn is_from(&self, node: &XmlNode) -> bool {
        &&& node.attr("port"@) == Some(self.port@)
    }

    /// Reads the element.
    pub fn from_node(node: &XmlNode) -> (r: Result<Self, Error>)
        ensures
            match r {
                Ok(v) => Self::readable(node) && v.is_from(node),
                Err(e) => !Self::readable(node) && e == Error::XmlParse,
            },
    {
        let port = node.required("port")?;
        Ok(EventOut { port })
    }
}

/// A quantity that a component type lets the outside see.
#[derive(Clone, Debug, PartialEq)]
pub struct Exposure {
    pub name: String,
    pub dimension: String,
    pub description: Option<String>,
}

impl Exposure {
    /// Whether `node` has all that must be there, in a form that can be read.
    pub open spec fn readable(node: &XmlNode) -> bool {
        &&& node.attr("name"@) is Some
    }

    /// Whether this is what `node` says.
    pub open spec fn is_from(&self, node: &XmlNode) -> bool {
        &&& node.attr("name"@) == Some(self.name@)
        &&& node.attr_or("dimension"@, "none"@) == self.dimension@
        &&& node.attr("description"@) == self.description.deep_view()
    }

    /// Reads the element.
    pub fn from_node(node: &XmlNode) -> (r: Result<Self, Error>)
        ensures
            match r {
                Ok(v) => Self::readable(node) && v.is_from(node),
                Err(e) => !Self::readable(node) && e == Error::XmlParse,
            },
    {
        let name = node.required("name")?;
        let dimension = node.or_default("dimension", "none");
        let description = node.optional("description");
        Ok(Exposure { name, dimension, description })
    }
}

/// A name for an instance inside a structure.
#[derive(Clone, Debug, PartialEq)]
pub struct With {
    pub instance: Option<String>,
    pub list: Option<String>,
    pub index: Option<String>,
    pub as_: String,
}

impl With {
    /// Whether `node` has all that must be there, in a form that can be read.
    pub open spec fn readable(node: &XmlNode) -> bool {
        &&& node.attr("as"@) is Some
    }

    /// Whether this is what `node` says.
    pub open spec fn is_from(&self, node: &XmlNode) -> bool {
        &&& node.attr("instance"@) == self.instance.deep_view()
        &&& node.attr("list"@) == self.list.deep_view()
        &&& node.attr("index"@) == self.index.deep_view()
        &&& node.attr("as"@) == Some(self.as_@)
    }

    /// Reads the element.
    pub fn from_node(node: &XmlNode) -> (r: Result<Self, Error>)
        ensures
            match r {
                Ok(v) => Self::readable(node) && v.is_from(node),
                Err(e) => !Self::readable(node) && e == Error::XmlParse,
            },
    {
        let instance = node.optional("instance");
        let list = node.optional("list");
        let index = node.optional("index");
        let as_ = node.required("as")?;
        Ok(With { instance, list, index, as_ })
    }
}

/// What may stand inside a tunnel.
#[derive(Clone, Debug, PartialEq)]
pub enum TunnelBody {
    Assign(Assign),
}

impl TunnelBody {
    /// Whether `node` is an element that may stand here and can be read.
    #[verifier::opaque]
    pub open spec fn readable(node: &XmlNode) -> bool {
        if node.tag@ == "Assign"@ {
            Assign::readable(node)
        } else {
            false
        }
    }

    /// Whether this is what `node` says.
    #[verifier::opaque]
    pub open spec fn is_from(&self, node: &XmlNode) -> bool {
        match self {
            TunnelBody::Assign(v) => node.tag@ == "Assign"@ && v.is_from(node),
        }
    }

    /// Reads the element by its tag. An element with another tag, or one
    /// that cannot be read, is an error.
    pub fn from_node(node: &XmlNode) -> (r: Result<Self, Error>)
        ensures
            match r {
                Ok(v) => Self::readable(node) && v.is_from(node),
                Err(e) => !Self::readable(node) && e == Error::XmlParse,
            },
    {
        reveal(TunnelBody::readable);
        reveal(TunnelBody::is_from);
        let tag = node.tag.as_str();
        if same(tag, "Assign") {
            match Assign::from_node(node) {
                Ok(v) => Ok(TunnelBody::Assign(v)),
                Err(e) => Err(e),
            }
        } else {
            Err(Error::XmlParse)
        }
    }
}

/// A connection between two instances.
#[allow(non_snake_case)]
#[derive(Clone, Debug, PartialEq)]
pub struct Tunnel {
    pub name: String,
    pub endA: String,
    pub endB: String,
    pub componentA: String,
    pub componentB: String,
    pub body: Vec<TunnelBody>,
}

impl Tunnel {
    /// Whether `node` has all that must be there, in a form that can be read.
    pub open spec fn readable(node: &XmlNode) -> bool {
        &&& node.attr("name"@) is Some
        &&& node.attr("endA"@) is Some
        &&& node.attr("endB"@) is Some
        &&& node.attr("componentA"@) is Some
        &&& node.attr("componentB"@) is Some
        &&& forall|i: int|
            0 <= i < node.children@.len() ==> TunnelBody::readable(&#[trigger] node.children@[i])
    }

    /// Whether this is what `node` says.
    pub open spec fn is_from(&self, node: &XmlNode) -> bool {
        &&& node.attr("name"@) == Some(self.name@)
        &&& node.attr("endA"@) == Some(self.endA@)
        &&& node.attr("endB"@) == Some(self.endB@)
        &&& node.attr("componentA"@) == Some(self.componentA@)
        &&& node.attr("componentB"@) == Some(self.componentB@)
        &&& self.body@.len() == node.children@.len()
        &&& forall|i: int|
            0 <= i < self.body@.len() ==> (#[trigger] self.body@[i]).is_from(&node.children@[i])
    }

    /// Reads the element.
    pub fn from_node(node: &XmlNode) -> (r: Result<Self, Error>)
        ensures
            match r {
                Ok(v) => Self::readable(node) && v.is_from(node),
                Err(e) => !Self::readable(node) && e == Error::XmlParse,
            },
    {
        let mut body: Vec<TunnelBody> = Vec::new();
        let mut i: usize = 0;
        while i < node.children.len()
            invariant
                i <= node.children@.len(),
                body@.len() == i,
                forall|j: int|
                    0 <= j < i ==> TunnelBody::readable(&#[trigger] node.children@[j]),
                forall|j: int|
                    0 <= j < i ==> (#[trigger] body@[j]).is_from(&node.children@[j]),
            decreases node.children@.len() - i,
        {
            match TunnelBody::from_node(&node.children[i]) {
                Ok(v) => {
                    body.push(v);
                },
                Err(e) => {
                    return Err(e);
                },
            }
            i += 1;
        }
        let name = node.required("name")?;
        let endA = node.required("endA")?;
        let endB = node.required("endB")?;
        let componentA = node.required("componentA")?;
        let componentB = node.required("componentB")?;
        Ok(Tunnel { name, endA, endB, componentA, componentB, body })
    }
}

/// A port through which events come or go.
#[derive(Clone, Debug, PartialEq)]
pub struct EventPort {
    pub name: String,
    pub direction: String,
    pub description: Option<String>,
}

impl EventPort {
    /// Whether `node` has all that must be there, in a form that can be read.
    pub open spec fn readable(node: &XmlNode) -> bool {
        &&& node.attr("name"@) is Some
        &&& node.attr("direction"@) is Some
    }

    /// Whether this is what `node` says.
    pub open spec fn is_from(&self, node: &XmlNode) -> bool {
        &&& node.attr("name"@) == Some(self.name@)
        &&& node.attr("direction"@) == Some(self.direction@)
        &&& node.attr("description"@) == self.description.deep_view()
    }

    /// Reads the element.
    pub fn from_node(node: &XmlNode) -> (r: Result<Self, Error>)
        ensures
            match r {
                Ok(v) => Self::readable(node) && v.is_from(node),
                Err(e) => !Self::readable(node) && e == Error::XmlParse,
            },
    {
        let name = node.required("name")?;
        let direction = node.required("direction")?;
        let description = node.optional("description");
        Ok(EventPort { name, direction, description })
    }
}

/// A value given to a property.
#[derive(Clone, Debug, PartialEq)]
pub struct Assign {
    pub property: String,
    pub value: String,
}

impl Assign {
    /// Whether `node` has all that must be there, in a form that can be read.
    pub open spec fn readable(node: &XmlNode) -> bool {
        &&& node.attr("property"@) is Some
        &&& node.attr("value"@) is Some
    }

    /// Whether this is what `node` says.
    pub open spec fn is_from(&self, node: &XmlNode) -> bool {
        &&& node.attr("property"@) == Some(self.property@)
        &&& node.attr("value"@) == Some(self.value@)
    }

    /// Reads the element.
    pub fn from_node(node: &XmlNode) -> (r: Result<Self, Error>)
        ensures
            match r {
                Ok(v) => Self::readable(node) && v.is_from(node),
                Err(e) => !Self::readable(node) && e == Error::XmlParse,
            },
    {
        let property = node.required("property")?;
        let value = node.required("value")?;
        Ok(Assign { property, value })
    }
}

/// A parameter that holds a path.
#[derive(Clone, Debug, PartialEq)]
pub struct Path {
    pub name: String,
    pub description: Option<String>,
}

impl Path {
    /// Whether `node` has all that must be there, in a form that can be read.
    pub open spec fn readable(node: &XmlNode) -> bool {
        &&& node.attr("name"@) is Some
    }

    /// Whether this is what `node` says.
    pub open spec fn is_from(&self, node: &XmlNode) -> bool {
        &&& node.attr("name"@) == Some(self.name@)
        &&& node.attr("description"@) == self.description.deep_view()
    }

    /// Reads the element.
    pub fn from_node(node: &XmlNode) -> (r: Result<Self, Error>)
        ensures
            match r {
                Ok(v) => Self::readable(node) && v.is_from(node),
                Err(e) => !Self::readable(node) && e == Error::XmlParse,
            },
    {
        let name = node.required("name")?;
        let description = node.optional("description");
        Ok(Path { name, description })
    }
}

/// One case of a conditional variable; the one without a condition is the default.
#[derive(Clone, Debug, PartialEq)]
pub struct Case {
    pub condition: Option<String>,
    pub value: String,
}

impl Case {
    /// Whether `node` has all that must be there, in a form that can be read.
    pub open spec fn readable(node: &XmlNode) -> bool {
        &&& node.attr("value"@) is Some
    }

    /// Whether this is what `node` says.
    pub open spec fn is_from(&self, node: &XmlNode) -> bool {
        &&& node.attr("condition"@) == self.condition.deep_view()
        &&& node.attr("value"@) == Some(self.value@)
    }

    /// Reads the element.
    pub fn from_node(node: &XmlNode) -> (r: Result<Self, Error>)
        ensures
            match r {
                Ok(v) => Self::readable(node) && v.is_from(node),
                Err(e) => !Self::readable(node) && e == Error::XmlParse,
            },
    {
        let condition = node.optional("condition");
        let value = node.required("value")?;
        Ok(Case { condition, value })
    }
}

/// What may stand inside a condition handler.
#[derive(Clone, Debug, PartialEq)]
pub enum OnConditionBody {
    StateAssignment(StateAssignment),
    EventOut(EventOut),
    Transition(Transition),
}

impl OnConditionBody {
    /// Whether `node` is an element that may stand here and can be read.
    #[verifier::opaque]
    pub open spec fn readable(node: &XmlNode) -> bool {
        if node.tag@ == "StateAssignment"@ {
            StateAssignment::readable(node)
        } else if node.tag@ == "EventOut"@ {
            EventOut::readable(node)
        } else if node.tag@ == "Transition"@ {
            Transition::readable(node)
        } else {
            false
        }
    }

    /// Whether this is what `node` says.
    #[verifier::opaque]
    pub open spec fn is_from(&self, node: &XmlNode) -> bool {
        match self {
            OnConditionBody::StateAssignment(v) => node.tag@ == "StateAssignment"@ && v.is_from(node),
            OnConditionBody::EventOut(v) => node.tag@ == "EventOut"@ && v.is_from(node),
            OnConditionBody::Transition(v) => node.tag@ == "Transition"@ && v.is_from(node),
        }
    }

    /// Reads the element by its tag. An element with another tag, or one
    /// that cannot be read, is an error.
    pub fn from_node(node: &XmlNode) -> (r: Result<Self, Error>)
        ensures
            match r {
                Ok(v) => Self::readable(node) && v.is_from(node),
                Err(e) => !Self::readable(node) && e == Error::XmlParse,
            },
    {
        reveal(OnConditionBody::readable);
        reveal(OnConditionBody::is_from);
        let tag = node.tag.as_str();
        if same(tag, "StateAssignment") {
            match StateAssignment::from_node(node) {
                Ok(v) => Ok(OnConditionBody::StateAssignment(v)),
                Err(e) => Err(e),
            }
        } else if same(tag, "EventOut") {
            match EventOut::from_node(node) {
                Ok(v) => Ok(OnConditionBody::EventOut(v)),
                Err(e) => Err(e),
            }
        } else if same(tag, "Transition") {
            match Transition::from_node(node) {
                Ok(v) => Ok(OnConditionBody::Transition(v)),
                Err(e) => Err(e),
            }
        } else {
            Err(Error::XmlParse)
        }
    }
}

/// What happens when a condition comes to hold.
#[derive(Clone, Debug, PartialEq)]
pub struct OnCondition {
    pub test: String,
    pub body: Vec<OnConditionBody>,
}

impl OnCondition {
    /// Whether `node` has all that must be there, in a form that can be read.
    pub open spec fn readable(node: &XmlNode) -> bool {
        &&& node.attr("test"@) is Some
        &&& forall|i: int|
            0 <= i < node.children@.len() ==> OnConditionBody::readable(&#[trigger] node.children@[i])
    }

    /// Whether this is what `node` says.
    pub open spec fn is_from(&self, node: &XmlNode) -> bool {
        &&& node.attr("test"@) == Some(self.test@)
        &&& self.body@.len() == node.children@.len()
        &&& forall|i: int|
            0 <= i < self.body@.len() ==> (#[trigger] self.body@[i]).is_from(&node.children@[i])
    }

    /// Reads the element.
    pub fn from_node(node: &XmlNode) -> (r: Result<Self, Error>)
        ensures
            match r {
                Ok(v) => Self::readable(node) && v.is_from(node),
                Err(e) => !Self::readable(node) && e == Error::XmlParse,
            },
    {
        let mut body: Vec<OnConditionBody> = Vec::new();
        let mut i: usize = 0;
        while i < node.children.len()
            invariant
                i <= node.children@.len(),
                body@.len() == i,
                forall|j: int|
                    0 <= j < i ==> OnConditionBody::readable(&#[trigger] node.children@[j]),
                forall|j: int|
                    0 <= j < i ==> (#[trigger] body@[j]).is_from(&node.children@[j]),
            decreases node.children@.len() - i,
        {
            match OnConditionBody::from_node(&node.children[i]) {
                Ok(v) => {
                    body.push(v);
                },
                Err(e) => {
                    return Err(e);
                },
            }
            i += 1;
        }
        let test = node.required("test")?;
        Ok(OnCondition { test, body })
    }
}

/// A variable computed from others, or selected from children.
#[derive(Clone, Debug, PartialEq)]
pub struct DerivedVariable {
    pub name: String,
    pub dimension: String,
    pub exposure: Option<String>,
    pub description: Option<String>,
    pub select: Option<String>,
    pub value: Option<String>,
    pub reduce: Option<String>,
    pub required: Option<String>,
}

impl DerivedVariable {
    /// Whether `node` has all that must be there, in a form that can be read.
    pub open spec fn readable(node: &XmlNode) -> bool {
        &&& node.attr("name"@) is Some
    }

    /// Whether this is what `node` says.
    pub open spec fn is_from(&self, node: &XmlNode) -> bool {
        &&& node.attr("name"@) == Some(self.name@)
        &&& node.attr_or("dimension"@, "none"@) == self.dimension@
        &&& node.attr("exposure"@) == self.exposure.deep_view()
        &&& node.attr("description"@) == self.description.deep_view()
        &&& node.attr("select"@) == self.select.deep_view()
        &&& node.attr("value"@) == self.value.deep_view()
        &&& node.attr("reduce"@) == self.reduce.deep_view()
        &&& node.attr("required"@) == self.required.deep_view()
    }

    /// Reads the element.
    pub fn from_node(node: &XmlNode) -> (r: Result<Self, Error>)
        ensures
            match r {
                Ok(v) => Self::readable(node) && v.is_from(node),
                Err(e) => !Self::readable(node) && e == Error::XmlParse,
            },
    {
        let name = node.required("name")?;
        let dimension = node.or_default("dimension", "none");
        let exposure = node.optional("exposure");
        let description = node.optional("description");
        let select = node.optional("select");
        let value = node.optional("value");
        let reduce = node.optional("reduce");
        let required = node.optional("required");
        Ok(DerivedVariable { name, dimension, exposure, description, select, value, reduce, required })
    }
}

/// A new value for a state variable.
#[derive(Clone, Debug, PartialEq)]
pub struct StateAssignment {
    pub variable: String,
    pub value: String,
}

impl StateAssignment {
    /// Whether `node` has all that must be there, in a form that can be read.
    pub open spec fn readable(node: &XmlNode) -> bool {
        &&& node.attr("variable"@) is Some
        &&& node.attr("value"@) is Some
    }

    /// Whether this is what `node` says.
    pub open spec fn is_from(&self, node: &XmlNode) -> bool {
        &&& node.attr("variable"@) == Some(self.variable@)
        &&& node.attr("value"@) == Some(self.value@)
    }

    /// Reads the element.
    pub fn from_node(node: &XmlNode) -> (r: Result<Self, Error>)
        ensures
            match r {
                Ok(v) => Self::readable(node) && v.is_from(node),
                Err(e) => !Self::readable(node) && e == Error::XmlParse,
            },
    {
        let variable = node.required("variable")?;
        let value = node.required("value")?;
        Ok(StateAssignment { variable, value })
    }
}

/// A property of an instance. Its default is kept as it is written.
#[allow(non_snake_case)]
#[derive(Clone, Debug, PartialEq)]
pub struct Property {
    pub name: String,
    pub dimension: String,
    pub description: Option<String>,
    pub defaultValue: Option<String>,
}

impl Property {
    /// Whether `node` has all that must be there, in a form that can be read.
    pub open spec fn readable(node: &XmlNode) -> bool {
        &&& node.attr("name"@) is Some
    }

    /// Whether this is what `node` says.
    pub open spec fn is_from(&self, node: &XmlNode) -> bool {
        &&& node.attr("name"@) == Some(self.name@)
        &&& node.attr_or("dimension"@, "none"@) == self.dimension@
        &&& node.attr("description"@) == self.description.deep_view()
        &&& node.attr("defaultValue"@) == self.defaultValue.deep_view()
    }

    /// Reads the element.
    pub fn from_node(node: &XmlNode) -> (r: Result<Self, Error>)
        ensures
            match r {
                Ok(v) => Self::readable(node) && v.is_from(node),
                Err(e) => !Self::readable(node) && e == Error::XmlParse,
            },
    {
        let name = node.required("name")?;
        let dimension = node.or_default("dimension", "none");
        let description = node.optional("description");
        let defaultValue = node.optional("defaultValue");
        Ok(Property { name, dimension, description, defaultValue })
    }
}

/// What may stand inside the dynamics of a component type.
#[derive(Clone, Debug, PartialEq)]
pub enum DynamicsBody {
    StateVariable(StateVariable),
    DerivedVariable(DerivedVariable),
    ConditionalDerivedVariable(ConditionalDerivedVariable),
    TimeDerivative(TimeDerivative),
    OnStart(OnStart),
    OnEvent(OnEvent),
    OnCondition(OnCondition),
    Regime(Regime),
    KineticScheme(KineticScheme),
}

impl DynamicsBody {
    /// Whether `node` is an element that may stand here and can be read.
    #[verifier::opaque]
    pub open spec fn readable(node: &XmlNode) -> bool {
        if node.tag@ == "StateVariable"@ {
            StateVariable::readable(node)
        } else if node.tag@ == "DerivedVariable"@ {
            DerivedVariable::readable(node)
        } else if node.tag@ == "ConditionalDerivedVariable"@ {
            ConditionalDerivedVariable::readable(node)
        } else if node.tag@ == "TimeDerivative"@ {
            TimeDerivative::readable(node)
        } else if node.tag@ == "OnStart"@ {
            OnStart::readable(node)
        } else if node.tag@ == "OnEvent"@ {
            OnEvent::readable(node)
        } else {
            Self::readable_second(node)
        }
    }

    /// The same for the tags that follow.
    #[verifier::opaque]
    pub open spec fn readable_second(node: &XmlNode) -> bool {
        if node.tag@ == "OnCondition"@ {
            OnCondition::readable(node)
        } else if node.tag@ == "Regime"@ {
            Regime::readable(node)
        } else if node.tag@ == "KineticScheme"@ {
            KineticScheme::readable(node)
        } else {
            false
        }
    }

    /// Whether this is what `node` says.
    #[verifier::opaque]
    pub open spec fn is_from(&self, node: &XmlNode) -> bool {
        match self {
            DynamicsBody::StateVariable(v) => node.tag@ == "StateVariable"@ && v.is_from(node),
            DynamicsBody::DerivedVariable(v) => node.tag@ == "DerivedVariable"@ && v.is_from(node),
            DynamicsBody::ConditionalDerivedVariable(v) => node.tag@ == "ConditionalDerivedVariable"@ && v.is_from(node),
            DynamicsBody::TimeDerivative(v) => node.tag@ == "TimeDerivative"@ && v.is_from(node),
            DynamicsBody::OnStart(v) => node.tag@ == "OnStart"@ && v.is_from(node),
            DynamicsBody::OnEvent(v) => node.tag@ == "OnEvent"@ && v.is_from(node),
            DynamicsBody::OnCondition(v) => node.tag@ == "OnCondition"@ && v.is_from(node),
            DynamicsBody::Regime(v) => node.tag@ == "Regime"@ && v.is_from(node),
            DynamicsBody::KineticScheme(v) => node.tag@ == "KineticScheme"@ && v.is_from(node),
        }
    }

    /// Reads the element by its tag. An element with another tag, or one
    /// that cannot be read, is an error.
    pub fn from_node(node: &XmlNode) -> (r: Result<Self, Error>)
        ensures
            match r {
                Ok(v) => Self::readable(node) && v.is_from(node),
                Err(e) => !Self::readable(node) && e == Error::XmlParse,
            },
    {
        reveal(DynamicsBody::readable);
        reveal(DynamicsBody::is_from);
        let tag = node.tag.as_str();
        if same(tag, "StateVariable") {
            match StateVariable::from_node(node) {
                Ok(v) => Ok(DynamicsBody::StateVariable(v)),
                Err(e) => Err(e),
            }
        } else if same(tag, "DerivedVariable") {
            match DerivedVariable::from_node(node) {
                Ok(v) => Ok(DynamicsBody::DerivedVariable(v)),
                Err(e) => Err(e),
            }
        } else if same(tag, "ConditionalDerivedVariable") {
            match ConditionalDerivedVariable::from_node(node) {
                Ok(v) => Ok(DynamicsBody::ConditionalDerivedVariable(v)),
                Err(e) => Err(e),
            }
        } else if same(tag, "TimeDerivative") {
            match TimeDerivative::from_node(node) {
                Ok(v) => Ok(DynamicsBody::TimeDerivative(v)),
                Err(e) => Err(e),
            }
        } else if same(tag, "OnStart") {
            match OnStart::from_node(node) {
                Ok(v) => Ok(DynamicsBody::OnStart(v)),
                Err(e) => Err(e),
            }
        } else if same(tag, "OnEvent") {
            match OnEvent::from_node(node) {
                Ok(v) => Ok(DynamicsBody::OnEvent(v)),
                Err(e) => Err(e),
            }
        } else {
            Self::from_node_second(node)
        }
    }

    fn from_node_second(node: &XmlNode) -> (r: Result<Self, Error>)
        ensures
            match r {
                Ok(v) => Self::readable_second(node) && v.is_from(node),
                Err(e) => !Self::readable_second(node) && e == Error::XmlParse,
            },
    {
        reveal(DynamicsBody::readable_second);
        reveal(DynamicsBody::is_from);
        let tag = node.tag.as_str();
        if same(tag, "OnCondition") {
            match OnCondition::from_node(node) {
                Ok(v) => Ok(DynamicsBody::OnCondition(v)),
                Err(e) => Err(e),
            }
        } else if same(tag, "Regime") {
            match Regime::from_node(node) {
                Ok(v) => Ok(DynamicsBody::Regime(v)),
                Err(e) => Err(e),
            }
        } else if same(tag, "KineticScheme") {
            match KineticScheme::from_node(node) {
                Ok(v) => Ok(DynamicsBody::KineticScheme(v)),
                Err(e) => Err(e),
            }
        } else {
            Err(Error::XmlParse)
        }
    }
}

/// The dynamics of a component type.
#[derive(Clone, Debug, PartialEq)]
pub struct Dynamics {
    pub body: Vec<DynamicsBody>,
}

impl Dynamics {
    /// Whether `node` has all that must be there, in a form that can be read.
    pub open spec fn readable(node: &XmlNode) -> bool {
        &&& forall|i: int|
            0 <= i < node.children@.len() ==> DynamicsBody::readable(&#[trigger] node.children@[i])
    }

    /// Whether this is what `node` says.
    pub open spec fn is_from(&self, node: &XmlNode) -> bool {
        &&& self.body@.len() == node.children@.len()
        &&& forall|i: int|
            0 <= i < self.body@.len() ==> (#[trigger] self.body@[i]).is_from(&node.children@[i])
    }

    /// Reads the element.
    pub fn from_node(node: &XmlNode) -> (r: Result<Self, Error>)
        ensures
            match r {
                Ok(v) => Self::readable(node) && v.is_from(node),
                Err(e) => !Self::readable(node) && e == Error::XmlParse,
            },
    {
        let mut body: Vec<DynamicsBody> = Vec::new();
        let mut i: usize = 0;
        while i < node.children.len()
            invariant
                i <= node.children@.len(),
                body@.len() == i,
                forall|j: int|
                    0 <= j < i ==> DynamicsBody::readable(&#[trigger] node.children@[j]),
                forall|j: int|
                    0 <= j < i ==> (#[trigger] body@[j]).is_from(&node.children@[j]),
            decreases node.children@.len() - i,
        {
            match DynamicsBody::from_node(&node.children[i]) {
                Ok(v) => {
                    body.push(v);
                },
                Err(e) => {
                    return Err(e);
                },
            }
            i += 1;
        }
        Ok(Dynamics { body })
    }
}

/// A slot for components that attach at run time.
#[derive(Clone, Debug, PartialEq)]
pub struct Attachments {
    pub name: String,
    pub type_: String,
    pub description: Option<String>,
}

impl Attachments {
    /// Whether `node` has all that must be there, in a form that can be read.
    pub open spec fn readable(node: &XmlNode) -> bool {
        &&& node.attr("name"@) is Some
        &&& node.attr("type"@) is Some
    }

    /// Whether this is what `node` says.
    pub open spec fn is_from(&self, node: &XmlNode) -> bool {
        &&& node.attr("name"@) == Some(self.name@)
        &&& node.attr("type"@) == Some(self.type_@)
        &&& node.attr("description"@) == self.description.deep_view()
    }

    /// Reads the element.
    pub fn from_node(node: &XmlNode) -> (r: Result<Self, Error>)
        ensures
            match r {
                Ok(v) => Self::readable(node) && v.is_from(node),
                Err(e) => !Self::readable(node) && e == Error::XmlParse,
            },
    {
        let name = node.required("name")?;
        let type_ = node.required("type")?;
        let description = node.optional("description");
        Ok(Attachments { name, type_, description })
    }
}

/// A parameter fixed to a value.
#[derive(Clone, Debug, PartialEq)]
pub struct Fixed {
    pub parameter: String,
    pub value: String,
    pub description: Option<String>,
}

impl Fixed {
    /// Whether `node` has all that must be there, in a form that can be read.
    pub open spec fn readable(node: &XmlNode) -> bool {
        &&& node.attr("parameter"@) is Some
        &&& node.attr("value"@) is Some
    }

    /// Whether this is what `node` says.
    pub open spec fn is_from(&self, node: &XmlNode) -> bool {
        &&& node.attr("parameter"@) == Some(self.parameter@)
        &&& node.attr("value"@) == Some(self.value@)
        &&& node.attr("description"@) == self.description.deep_view()
    }

    /// Reads the element.
    pub fn from_node(node: &XmlNode) -> (r: Result<Self, Error>)
        ensures
            match r {
                Ok(v) => Self::readable(node) && v.is_from(node),
                Err(e) => !Self::readable(node) && e == Error::XmlParse,
            },
    {
        let parameter = node.required("parameter")?;
        let value = node.required("value")?;
        let description = node.optional("description");
        Ok(Fixed { parameter, value, description })
    }
}

/// A state variable.
#[derive(Clone, Debug, PartialEq)]
pub struct StateVariable {
    pub name: String,
    pub dimension: String,
    pub exposure: Option<String>,
    pub description: Option<String>,
}

impl StateVariable {
    /// Whether `node` has all that must be there, in a form that can be read.
    pub open spec fn readable(node: &XmlNode) -> bool {
        &&& node.attr("name"@) is Some
    }

    /// Whether this is what `node` says.
    pub open spec fn is_from(&self, node: &XmlNode) -> bool {
        &&& node.attr("name"@) == Some(self.name@)
        &&& node.attr_or("dimension"@, "none"@) == self.dimension@
        &&& node.attr("exposure"@) == self.exposure.deep_view()
        &&& node.attr("description"@) == self.description.deep_view()
    }

    /// Reads the element.
    pub fn from_node(node: &XmlNode) -> (r: Result<Self, Error>)
        ensures
            match r {
                Ok(v) => Self::readable(node) && v.is_from(node),
                Err(e) => !Self::readable(node) && e == Error::XmlParse,
            },
    {
        let name = node.required("name")?;
        let dimension = node.or_default("dimension", "none");
        let exposure = node.optional("exposure");
        let description = node.optional("description");
        Ok(StateVariable { name, dimension, exposure, description })
    }
}

/// What may stand inside an entry handler.
#[derive(Clone, Debug, PartialEq)]
pub enum OnEntryBody {
    StateAssignment(StateAssignment),
}

impl OnEntryBody {
    /// Whether `node` is an element that may stand here and can be read.
    #[verifier::opaque]
    pub open spec fn readable(node: &XmlNode) -> bool {
        if node.tag@ == "StateAssignment"@ {
            StateAssignment::readable(node)
        } else {
            false
        }
    }

    /// Whether this is what `node` says.
    #[verifier::opaque]
    pub open spec fn is_from(&self, node: &XmlNode) -> bool {
        match self {
            OnEntryBody::StateAssignment(v) => node.tag@ == "StateAssignment"@ && v.is_from(node),
        }
    }

    /// Reads the element by its tag. An element with another tag, or one
    /// that cannot be read, is an error.
    pub fn from_node(node: &XmlNode) -> (r: Result<Self, Error>)
        ensures
            match r {
                Ok(v) => Self::readable(node) && v.is_from(node),
                Err(e) => !Self::readable(node) && e == Error::XmlParse,
            },
    {
        reveal(OnEntryBody::readable);
        reveal(OnEntryBody::is_from);
        let tag = node.tag.as_str();
        if same(tag, "StateAssignment") {
            match StateAssignment::from_node(node) {
                Ok(v) => Ok(OnEntryBody::StateAssignment(v)),
                Err(e) => Err(e),
            }
        } else {
            Err(Error::XmlParse)
        }
    }
}

/// What happens when a regime is entered.
#[derive(Clone, Debug, PartialEq)]
pub struct OnEntry {
    pub body: Vec<OnEntryBody>,
}

impl OnEntry {
    /// Whether `node` has all that must be there, in a form that can be read.
    pub open spec fn readable(node: &XmlNode) -> bool {
        &&& forall|i: int|
            0 <= i < node.children@.len() ==> OnEntryBody::readable(&#[trigger] node.children@[i])
    }

    /// Whether this is what `node` says.
    pub open spec fn is_from(&self, node: &XmlNode) -> bool {
        &&& self.body@.len() == node.children@.len()
        &&& forall|i: int|
            0 <= i < self.body@.len() ==> (#[trigger] self.body@[i]).is_from(&node.children@[i])
    }

    /// Reads the element.
    pub fn from_node(node: &XmlNode) -> (r: Result<Self, Error>)
        ensures
            match r {
                Ok(v) => Self::readable(node) && v.is_from(node),
                Err(e) => !Self::readable(node) && e == Error::XmlParse,
            },
    {
        let mut body: Vec<OnEntryBody> = Vec::new();
        let mut i: usize = 0;
        while i < node.children.len()
            invariant
                i <= node.children@.len(),
                body@.len() == i,
                forall|j: int|
                    0 <= j < i ==> OnEntryBody::readable(&#[trigger] node.children@[j]),
                forall|j: int|
                    0 <= j < i ==> (#[trigger] body@[j]).is_from(&node.children@[j]),
            decreases node.children@.len() - i,
        {
            match OnEntryBody::from_node(&node.children[i]) {
                Ok(v) => {
                    body.push(v);
                },
                Err(e) => {
                    return Err(e);
                },
            }
            i += 1;
        }
        Ok(OnEntry { body })
    }
}

/// A parameter computed from others.
#[derive(Clone, Debug, PartialEq)]
pub struct DerivedParameter {
    pub name: String,
    pub dimension: String,
    pub value: String,
    pub description: Option<String>,
}

impl DerivedParameter {
    /// Whether `node` has all that must be there, in a form that can be read.
    pub open spec fn readable(node: &XmlNode) -> bool {
        &&& node.attr("name"@) is Some
        &&& node.attr("value"@) is Some
    }

    /// Whether this is what `node` says.
    pub open spec fn is_from(&self, node: &XmlNode) -> bool {
        &&& node.attr("name"@) == Some(self.name@)
        &&& node.attr_or("dimension"@, "none"@) == self.dimension@
        &&& node.attr("value"@) == Some(self.value@)
        &&& node.attr("description"@) == self.description.deep_view()
    }

    /// Reads the element.
    pub fn from_node(node: &XmlNode) -> (r: Result<Self, Error>)
        ensures
            match r {
                Ok(v) => Self::readable(node) && v.is_from(node),
                Err(e) => !Self::readable(node) && e == Error::XmlParse,
            },
    {
        let name = node.required("name")?;
        let dimension = node.or_default("dimension", "none");
        let value = node.required("value")?;
        let description = node.optional("description");
        Ok(DerivedParameter { name, dimension, value, description })
    }
}

/// A quantity that a component type requires from its surroundings.
#[derive(Clone, Debug, PartialEq)]
pub struct Requirement {
    pub name: String,
    pub dimension: String,
    pub description: Option<String>,
}

impl Requirement {
    /// Whether `node` has all that must be there, in a form that can be read.
    pub open spec fn readable(node: &XmlNode) -> bool {
        &&& node.attr("name"@) is Some
    }

    /// Whether this is what `node` says.
    pub open spec fn is_from(&self, node: &XmlNode) -> bool {
        &&& node.attr("name"@) == Some(self.name@)
        &&& node.attr_or("dimension"@, "none"@) == self.dimension@
        &&& node.attr("description"@) == self.description.deep_view()
    }

    /// Reads the element.
    pub fn from_node(node: &XmlNode) -> (r: Result<Self, Error>)
        ensures
            match r {
                Ok(v) => Self::readable(node) && v.is_from(node),
                Err(e) => !Self::readable(node) && e == Error::XmlParse,
            },
    {
        let name = node.required("name")?;
        let dimension = node.or_default("dimension", "none");
        let description = node.optional("description");
        Ok(Requirement { name, dimension, description })
    }
}

/// A dimension, given by its exponents of the base dimensions.
#[derive(Clone, Debug, PartialEq)]
pub struct Dimension {
    pub name: String,
    pub m: i64,
    pub l: i64,
    pub t: i64,
    pub i: i64,
    pub k: i64,
    pub n: i64,
}

impl Dimension {
    /// Whether `node` has all that must be there, in a form that can be read.
    pub open spec fn readable(node: &XmlNode) -> bool {
        &&& node.attr("name"@) is Some
        &&& node.int_attr_ok("m"@)
        &&& node.int_attr_ok("l"@)
        &&& node.int_attr_ok("t"@)
        &&& node.int_attr_ok("i"@)
        &&& node.int_attr_ok("k"@)
        &&& node.int_attr_ok("n"@)
    }

    /// Whether this is what `node` says.
    pub open spec fn is_from(&self, node: &XmlNode) -> bool {
        &&& node.attr("name"@) == Some(self.name@)
        &&& node.int_attr_or("m"@, 0) == Some(self.m as int)
        &&& node.int_attr_or("l"@, 0) == Some(self.l as int)
        &&& node.int_attr_or("t"@, 0) == Some(self.t as int)
        &&& node.int_attr_or("i"@, 0) == Some(self.i as int)
        &&& node.int_attr_or("k"@, 0) == Some(self.k as int)
        &&& node.int_attr_or("n"@, 0) == Some(self.n as int)
    }

    /// Reads the element.
    pub fn from_node(node: &XmlNode) -> (r: Result<Self, Error>)
        ensures
            match r {
                Ok(v) => Self::readable(node) && v.is_from(node),
                Err(e) => !Self::readable(node) && e == Error::XmlParse,
            },
    {
        let name = node.required("name")?;
        let m = node.int_or("m", 0)?;
        let l = node.int_or("l", 0)?;
        let t = node.int_or("t", 0)?;
        let i = node.int_or("i", 0)?;
        let k = node.int_or("k", 0)?;
        let n = node.int_or("n", 0)?;
        Ok(Dimension { name, m, l, t, i, k, n })
    }
}

/// A file into which recorded data is written.
#[allow(non_snake_case)]
#[derive(Clone, Debug, PartialEq)]
pub struct DataWriter {
    pub path: String,
    pub fileName: String,
}

impl DataWriter {
    /// Whether `node` has all that must be there, in a form that can be read.
    pub open spec fn readable(node: &XmlNode) -> bool {
        &&& node.attr("path"@) is Some
        &&& node.attr("fileName"@) is Some
    }

    /// Whether this is what `node` says.
    pub open spec fn is_from(&self, node: &XmlNode) -> bool {
        &&& node.attr("path"@) == Some(self.path@)
        &&& node.attr("fileName"@) == Some(self.fileName@)
    }

    /// Reads the element.
    pub fn from_node(node: &XmlNode) -> (r: Result<Self, Error>)
        ensures
            match r {
                Ok(v) => Self::readable(node) && v.is_from(node),
                Err(e) => !Self::readable(node) && e == Error::XmlParse,
            },
    {
        let path = node.required("path")?;
        let fileName = node.required("fileName")?;
        Ok(DataWriter { path, fileName })
    }
}

/// A slot for any number of components.
#[derive(Clone, Debug, PartialEq)]
pub struct Children {
    pub name: String,
    pub type_: Option<String>,
    pub min: Option<i64>,
    pub max: Option<i64>,
    pub description: Option<String>,
}

impl Children {
    /// Whether `node` has all that must be there, in a form that can be read.
    pub open spec fn readable(node: &XmlNode) -> bool {
        &&& node.attr("name"@) is Some
        &&& node.int_attr_ok("min"@)
        &&& node.int_attr_ok("max"@)
    }

    /// Whether this is what `node` says.
    pub open spec fn is_from(&self, node: &XmlNode) -> bool {
        &&& node.attr("name"@) == Some(self.name@)
        &&& node.attr("type"@) == self.type_.deep_view()
        &&& match self.min {
            Some(v) => node.int_attr("min"@) == Some(v as int),
            None => node.attr("min"@).is_none(),
        }
        &&& match self.max {
            Some(v) => node.int_attr("max"@) == Some(v as int),
            None => node.attr("max"@).is_none(),
        }
        &&& node.attr("description"@) == self.description.deep_view()
    }

    /// Reads the element.
    pub fn from_node(node: &XmlNode) -> (r: Result<Self, Error>)
        ensures
            match r {
                Ok(v) => Self::readable(node) && v.is_from(node),
                Err(e) => !Self::readable(node) && e == Error::XmlParse,
            },
    {
        let name = node.required("name")?;
        let type_ = node.optional("type");
        let min = node.optional_int("min")?;
        let max = node.optional_int("max")?;
        let description = node.optional("description");
        Ok(Children { name, type_, min, max, description })
    }
}

/// A file into which recorded events are written.
#[allow(non_snake_case)]
#[derive(Clone, Debug, PartialEq)]
pub struct EventWriter {
    pub path: String,
    pub fileName: String,
    pub format: String,
}

impl EventWriter {
    /// Whether `node` has all that must be there, in a form that can be read.
    pub open spec fn readable(node: &XmlNode) -> bool {
        &&& node.attr("path"@) is Some
        &&& node.attr("fileName"@) is Some
        &&& node.attr("format"@) is Some
    }

    /// Whether this is what `node` says.
    pub open spec fn is_from(&self, node: &XmlNode) -> bool {
        &&& node.attr("path"@) == Some(self.path@)
        &&& node.attr("fileName"@) == Some(self.fileName@)
        &&& node.attr("format"@) == Some(self.format@)
    }

    /// Reads the element.
    pub fn from_node(node: &XmlNode) -> (r: Result<Self, Error>)
        ensures
            match r {
                Ok(v) => Self::readable(node) && v.is_from(node),
                Err(e) => !Self::readable(node) && e == Error::XmlParse,
            },
    {
        let path = node.required("path")?;
        let fileName = node.required("fileName")?;
        let format = node.required("format")?;
        Ok(EventWriter { path, fileName, format })
    }
}

/// A kinetic scheme as it is written.
#[allow(non_snake_case)]
#[derive(Clone, Debug, PartialEq)]
pub struct KineticScheme {
    pub name: String,
    pub nodes: String,
    pub stateVariable: String,
    pub edges: String,
    pub edgeSource: String,
    pub edgeTarget: String,
    pub forwardRate: String,
    pub reverseRate: String,
}

impl KineticScheme {
    /// Whether `node` has all that must be there, in a form that can be read.
    pub open spec fn readable(node: &XmlNode) -> bool {
        &&& node.attr("name"@) is Some
        &&& node.attr("nodes"@) is Some
        &&& node.attr("stateVariable"@) is Some
        &&& node.attr("edges"@) is Some
        &&& node.attr("edgeSource"@) is Some
        &&& node.attr("edgeTarget"@) is Some
        &&& node.attr("forwardRate"@) is Some
        &&& node.attr("reverseRate"@) is Some
    }

    /// Whether this is what `node` says.
    pub open spec fn is_from(&self, node: &XmlNode) -> bool {
        &&& node.attr("name"@) == Some(self.name@)
        &&& node.attr("nodes"@) == Some(self.nodes@)
        &&& node.attr("stateVariable"@) == Some(self.stateVariable@)
        &&& node.attr("edges"@) == Some(self.edges@)
        &&& node.attr("edgeSource"@) == Some(self.edgeSource@)
        &&& node.attr("edgeTarget"@) == Some(self.edgeTarget@)
        &&& node.attr("forwardRate"@) == Some(self.forwardRate@)
        &&& node.attr("reverseRate"@) == Some(self.reverseRate@)
    }

    /// Reads the element.
    pub fn from_node(node: &XmlNode) -> (r: Result<Self, Error>)
        ensures
            match r {
                Ok(v) => Self::readable(node) && v.is_from(node),
                Err(e) => !Self::readable(node) && e == Error::XmlParse,
            },
    {
        let name = node.required("name")?;
        let nodes = node.required("nodes")?;
        let stateVariable = node.required("stateVariable")?;
        let edges = node.required("edges")?;
        let edgeSource = node.required("edgeSource")?;
        let edgeTarget = node.required("edgeTarget")?;
        let forwardRate = node.required("forwardRate")?;
        let reverseRate = node.required("reverseRate")?;
        Ok(KineticScheme { name, nodes, stateVariable, edges, edgeSource, edgeTarget, forwardRate, reverseRate })
    }
}

/// A display of recorded data.
#[allow(non_snake_case)]
#[derive(Clone, Debug, PartialEq)]
pub struct DataDisplay {
    pub title: String,
    pub dataRegion: String,
}

impl DataDisplay {
    /// Whether `node` has all that must be there, in a form that can be read.
    pub open spec fn readable(node: &XmlNode) -> bool {
        &&& node.attr("title"@) is Some
        &&& node.attr("dataRegion"@) is Some
    }

    /// Whether this is what `node` says.
    pub open spec fn is_from(&self, node: &XmlNode) -> bool {
        &&& node.attr("title"@) == Some(self.title@)
        &&& node.attr("dataRegion"@) == Some(self.dataRegion@)
    }

    /// Reads the element.
    pub fn from_node(node: &XmlNode) -> (r: Result<Self, Error>)
        ensures
            match r {
                Ok(v) => Self::readable(node) && v.is_from(node),
                Err(e) => !Self::readable(node) && e == Error::XmlParse,
            },
    {
        let title = node.required("title")?;
        let dataRegion = node.required("dataRegion")?;
        Ok(DataDisplay { title, dataRegion })
    }
}

/// What may stand inside a conditional variable.
#[derive(Clone, Debug, PartialEq)]
pub enum ConditionalDerivedVariableBody {
    Case(Case),
}

impl ConditionalDerivedVariableBody {
    /// Whether `node` is an element that may stand here and can be read.
    #[verifier::opaque]
    pub open spec fn readable(node: &XmlNode) -> bool {
        if node.tag@ == "Case"@ {
            Case::readable(node)
        } else {
            false
        }
    }

    /// Whether this is what `node` says.
    #[verifier::opaque]
    pub open spec fn is_from(&self, node: &XmlNode) -> bool {
        match self {
            ConditionalDerivedVariableBody::Case(v) => node.tag@ == "Case"@ && v.is_from(node),
        }
    }

    /// Reads the element by its tag. An element with another tag, or one
    /// that cannot be read, is an error.
    pub fn from_node(node: &XmlNode) -> (r: Result<Self, Error>)
        ensures
            match r {
                Ok(v) => Self::readable(node) && v.is_from(node),
                Err(e) => !Self::readable(node) && e == Error::XmlParse,
            },
    {
        reveal(ConditionalDerivedVariableBody::readable);
        reveal(ConditionalDerivedVariableBody::is_from);
        let tag = node.tag.as_str();
        if same(tag, "Case") {
            match Case::from_node(node) {
                Ok(v) => Ok(ConditionalDerivedVariableBody::Case(v)),
                Err(e) => Err(e),
            }
        } else {
            Err(Error::XmlParse)
        }
    }
}

/// A variable given case by case.
#[derive(Clone, Debug, PartialEq)]
pub struct ConditionalDerivedVariable {
    pub name: String,
    pub dimension: String,
    pub exposure: Option<String>,
    pub body: Vec<ConditionalDerivedVariableBody>,
}

impl ConditionalDerivedVariable {
    /// Whether `node` has all that must be there, in a form that can be read.
    pub open spec fn readable(node: &XmlNode) -> bool {
        &&& node.attr("name"@) is Some
        &&& forall|i: int|
            0 <= i < node.children@.len() ==> ConditionalDerivedVariableBody::readable(&#[trigger] node.children@[i])
    }

    /// Whether this is what `node` says.
    pub open spec fn is_from(&self, node: &XmlNode) -> bool {
        &&& node.attr("name"@) == Some(self.name@)
        &&& node.attr_or("dimension"@, "none"@) == self.dimension@
        &&& node.attr("exposure"@) == self.exposure.deep_view()
        &&& self.body@.len() == node.children@.len()
        &&& forall|i: int|
            0 <= i < self.body@.len() ==> (#[trigger] self.body@[i]).is_from(&node.children@[i])
    }

    /// Reads the element.
    pub fn from_node(node: &XmlNode) -> (r: Result<Self, Error>)
        ensures
            match r {
                Ok(v) => Self::readable(node) && v.is_from(node),
                Err(e) => !Self::readable(node) && e == Error::XmlParse,
            },
    {
        let mut body: Vec<ConditionalDerivedVariableBody> = Vec::new();
        let mut i: usize = 0;
        while i < node.children.len()
            invariant
                i <= node.children@.len(),
                body@.len() == i,
                forall|j: int|
                    0 <= j < i ==> ConditionalDerivedVariableBody::readable(&#[trigger] node.children@[j]),
                forall|j: int|
                    0 <= j < i ==> (#[trigger] body@[j]).is_from(&node.children@[j]),
            decreases node.children@.len() - i,
        {
            match ConditionalDerivedVariableBody::from_node(&node.children[i]) {
                Ok(v) => {
                    body.push(v);
                },
                Err(e) => {
                    return Err(e);
                },
            }
            i += 1;
        }
        let name = node.required("name")?;
        let dimension = node.or_default("dimension", "none");
        let exposure = node.optional("exposure");
        Ok(ConditionalDerivedVariable { name, dimension, exposure, body })
    }
}

/// A component that a component type requires.
#[derive(Clone, Debug, PartialEq)]
pub struct ComponentRequirement {
    pub name: String,
}

impl ComponentRequirement {
    /// Whether `node` has all that must be there, in a form that can be read.
    pub open spec fn readable(node: &XmlNode) -> bool {
        &&& node.attr("name"@) is Some
    }

    /// Whether this is what `node` says.
    pub open spec fn is_from(&self, node: &XmlNode) -> bool {
        &&& node.attr("name"@) == Some(self.name@)
    }

    /// Reads the element.
    pub fn from_node(node: &XmlNode) -> (r: Result<Self, Error>)
        ensures
            match r {
                Ok(v) => Self::readable(node) && v.is_from(node),
                Err(e) => !Self::readable(node) && e == Error::XmlParse,
            },
    {
        let name = node.required("name")?;
        Ok(ComponentRequirement { name })
    }
}

/// What may stand inside a start handler.
#[derive(Clone, Debug, PartialEq)]
pub enum OnStartBody {
    StateAssignment(StateAssignment),
}

impl OnStartBody {
    /// Whether `node` is an element that may stand here and can be read.
    #[verifier::opaque]
    pub open spec fn readable(node: &XmlNode) -> bool {
        if node.tag@ == "StateAssignment"@ {
            StateAssignment::readable(node)
        } else {
            false
        }
    }

    /// Whether this is what `node` says.
    #[verifier::opaque]
    pub open spec fn is_from(&self, node: &XmlNode) -> bool {
        match self {
            OnStartBody::StateAssignment(v) => node.tag@ == "StateAssignment"@ && v.is_from(node),
        }
    }

    /// Reads the element by its tag. An element with another tag, or one
    /// that cannot be read, is an error.
    pub fn from_node(node: &XmlNode) -> (r: Result<Self, Error>)
        ensures
            match r {
                Ok(v) => Self::readable(node) && v.is_from(node),
                Err(e) => !Self::readable(node) && e == Error::XmlParse,
            },
    {
        reveal(OnStartBody::readable);
        reveal(OnStartBody::is_from);
        let tag = node.tag.as_str();
        if same(tag, "StateAssignment") {
            match StateAssignment::from_node(node) {
                Ok(v) => Ok(OnStartBody::StateAssignment(v)),
                Err(e) => Err(e),
            }
        } else {
            Err(Error::XmlParse)
        }
    }
}

/// What happens at the start.
#[derive(Clone, Debug, PartialEq)]
pub struct OnStart {
    pub body: Vec<OnStartBody>,
}

impl OnStart {
    /// Whether `node` has all that must be there, in a form that can be read.
    pub open spec fn readable(node: &XmlNode) -> bool {
        &&& forall|i: int|
            0 <= i < node.children@.len() ==> OnStartBody::readable(&#[trigger] node.children@[i])
    }

    /// Whether this is what `node` says.
    pub open spec fn is_from(&self, node: &XmlNode) -> bool {
        &&& self.body@.len() == node.children@.len()
        &&& forall|i: int|
            0 <= i < self.body@.len() ==> (#[trigger] self.body@[i]).is_from(&node.children@[i])
    }

    /// Reads the element.
    pub fn from_node(node: &XmlNode) -> (r: Result<Self, Error>)
        ensures
            match r {
                Ok(v) => Self::readable(node) && v.is_from(node),
                Err(e) => !Self::readable(node) && e == Error::XmlParse,
            },
    {
        let mut body: Vec<OnStartBody> = Vec::new();
        let mut i: usize = 0;
        while i < node.children.len()
            invariant
                i <= node.children@.len(),
                body@.len() == i,
                forall|j: int|
                    0 <= j < i ==> OnStartBody::readable(&#[trigger] node.children@[j]),
                forall|j: int|
                    0 <= j < i ==> (#[trigger] body@[j]).is_from(&node.children@[j]),
            decreases node.children@.len() - i,
        {
            match OnStartBody::from_node(&node.children[i]) {
                Ok(v) => {
                    body.push(v);
                },
                Err(e) => {
                    return Err(e);
                },
            }
            i += 1;
        }
        Ok(OnStart { body })
    }
}

/// A run of a component over time.
#[derive(Clone, Debug, PartialEq)]
pub struct Run {
    pub component: String,
    pub variable: String,
    pub increment: String,
    pub total: String,
}

impl Run {
    /// Whether `node` has all that must be there, in a form that can be read.
    pub open spec fn readable(node: &XmlNode) -> bool {
        &&& node.attr("component"@) is Some
        &&& node.attr("variable"@) is Some
        &&& node.attr("increment"@) is Some
        &&& node.attr("total"@) is Some
    }

    /// Whether this is what `node` says.
    pub open spec fn is_from(&self, node: &XmlNode) -> bool {
        &&& node.attr("component"@) == Some(self.component@)
        &&& node.attr("variable"@) == Some(self.variable@)
        &&& node.attr("increment"@) == Some(self.increment@)
        &&& node.attr("total"@) == Some(self.total@)
    }

    /// Reads the element.
    pub fn from_node(node: &XmlNode) -> (r: Result<Self, Error>)
        ensures
            match r {
                Ok(v) => Self::readable(node) && v.is_from(node),
                Err(e) => !Self::readable(node) && e == Error::XmlParse,
            },
    {
        let component = node.required("component")?;
        let variable = node.required("variable")?;
        let increment = node.required("increment")?;
        let total = node.required("total")?;
        Ok(Run { component, variable, increment, total })
    }
}

/// What may stand inside a regime.
#[derive(Clone, Debug, PartialEq)]
pub enum RegimeBody {
    TimeDerivative(TimeDerivative),
    OnEntry(OnEntry),
    OnCondition(OnCondition),
}

impl RegimeBody {
    /// Whether `node` is an element that may stand here and can be read.
    #[verifier::opaque]
    pub open spec fn readable(node: &XmlNode) -> bool {
        if node.tag@ == "TimeDerivative"@ {
            TimeDerivative::readable(node)
        } else if node.tag@ == "OnEntry"@ {
            OnEntry::readable(node)
        } else if node.tag@ == "OnCondition"@ {
            OnCondition::readable(node)
        } else {
            false
        }
    }

    /// Whether this is what `node` says.
    #[verifier::opaque]
    pub open spec fn is_from(&self, node: &XmlNode) -> bool {
        match self {
            RegimeBody::TimeDerivative(v) => node.tag@ == "TimeDerivative"@ && v.is_from(node),
            RegimeBody::OnEntry(v) => node.tag@ == "OnEntry"@ && v.is_from(node),
            RegimeBody::OnCondition(v) => node.tag@ == "OnCondition"@ && v.is_from(node),
        }
    }

    /// Reads the element by its tag. An element with another tag, or one
    /// that cannot be read, is an error.
    pub fn from_node(node: &XmlNode) -> (r: Result<Self, Error>)
        ensures
            match r {
                Ok(v) => Self::readable(node) && v.is_from(node),
                Err(e) => !Self::readable(node) && e == Error::XmlParse,
            },
    {
        reveal(RegimeBody::readable);
        reveal(RegimeBody::is_from);
        let tag = node.tag.as_str();
        if same(tag, "TimeDerivative") {
            match TimeDerivative::from_node(node) {
                Ok(v) => Ok(RegimeBody::TimeDerivative(v)),
                Err(e) => Err(e),
            }
        } else if same(tag, "OnEntry") {
            match OnEntry::from_node(node) {
                Ok(v) => Ok(RegimeBody::OnEntry(v)),
                Err(e) => Err(e),
            }
        } else if same(tag, "OnCondition") {
            match OnCondition::from_node(node) {
                Ok(v) => Ok(RegimeBody::OnCondition(v)),
                Err(e) => Err(e),
            }
        } else {
            Err(Error::XmlParse)
        }
    }
}

/// A regime of the dynamics.
#[derive(Clone, Debug, PartialEq)]
pub struct Regime {
    pub name: String,
    pub initial: Option<String>,
    pub body: Vec<RegimeBody>,
}

impl Regime {
    /// Whether `node` has all that must be there, in a form that can be read.
    pub open spec fn readable(node: &XmlNode) -> bool {
        &&& node.attr("name"@) is Some
        &&& forall|i: int|
            0 <= i < node.children@.len() ==> RegimeBody::readable(&#[trigger] node.children@[i])
    }

    /// Whether this is what `node` says.
    pub open spec fn is_from(&self, node: &XmlNode) -> bool {
        &&& node.attr("name"@) == Some(self.name@)
        &&& node.attr("initial"@) == self.initial.deep_view()
        &&& self.body@.len() == node.children@.len()
        &&& forall|i: int|
            0 <= i < self.body@.len() ==> (#[trigger] self.body@[i]).is_from(&node.children@[i])
    }

    /// Reads the element.
    pub fn from_node(node: &XmlNode) -> (r: Result<Self, Error>)
        ensures
            match r {
                Ok(v) => Self::readable(node) && v.is_from(node),
                Err(e) => !Self::readable(node) && e == Error::XmlParse,
            },
    {
        let mut body: Vec<RegimeBody> = Vec::new();
        let mut i: usize = 0;
        while i < node.children.len()
            invariant
                i <= node.children@.len(),
                body@.len() == i,
                forall|j: int|
                    0 <= j < i ==> RegimeBody::readable(&#[trigger] node.children@[j]),
                forall|j: int|
                    0 <= j < i ==> (#[trigger] body@[j]).is_from(&node.children@[j]),
            decreases node.children@.len() - i,
        {
            match RegimeBody::from_node(&node.children[i]) {
                Ok(v) => {
                    body.push(v);
                },
                Err(e) => {
                    return Err(e);
                },
            }
            i += 1;
        }
        let name = node.required("name")?;
        let initial = node.optional("initial");
        Ok(Regime { name, initial, body })
    }
}

/// A numeric parameter.
#[derive(Clone, Debug, PartialEq)]
pub struct Parameter {
    pub name: String,
    pub dimension: String,
    pub description: Option<String>,
}

impl Parameter {
    /// Whether `node` has all that must be there, in a form that can be read.
    pub open spec fn readable(node: &XmlNode) -> bool {
        &&& node.attr("name"@) is Some
    }

    /// Whether this is what `node` says.
    pub open spec fn is_from(&self, node: &XmlNode) -> bool {
        &&& node.attr("name"@) == Some(self.name@)
        &&& node.attr_or("dimension"@, "none"@) == self.dimension@
        &&& node.attr("description"@) == self.description.deep_view()
    }

    /// Reads the element.
    pub fn from_node(node: &XmlNode) -> (r: Result<Self, Error>)
        ensures
            match r {
                Ok(v) => Self::readable(node) && v.is_from(node),
                Err(e) => !Self::readable(node) && e == Error::XmlParse,
            },
    {
        let name = node.required("name")?;
        let dimension = node.or_default("dimension", "none");
        let description = node.optional("description");
        Ok(Parameter { name, dimension, description })
    }
}

/// A parameter that holds an index.
#[derive(Clone, Debug, PartialEq)]
pub struct IndexParameter {
    pub name: String,
}

impl IndexParameter {
    /// Whether `node` has all that must be there, in a form that can be read.
    pub open spec fn readable(node: &XmlNode) -> bool {
        &&& node.attr("name"@) is Some
    }

    /// Whether this is what `node` says.
    pub open spec fn is_from(&self, node: &XmlNode) -> bool {
        &&& node.attr("name"@) == Some(self.name@)
    }

    /// Reads the element.
    pub fn from_node(node: &XmlNode) -> (r: Result<Self, Error>)
        ensures
            match r {
                Ok(v) => Self::readable(node) && v.is_from(node),
                Err(e) => !Self::readable(node) && e == Error::XmlParse,
            },
    {
        let name = node.required("name")?;
        Ok(IndexParameter { name })
    }
}

/// What may stand inside an event connection.
#[derive(Clone, Debug, PartialEq)]
pub enum EventConnectionBody {
    Assign(Assign),
}

impl EventConnectionBody {
    /// Whether `node` is an element that may stand here and can be read.
    #[verifier::opaque]
    pub open spec fn readable(node: &XmlNode) -> bool {
        if node.tag@ == "Assign"@ {
            Assign::readable(node)
        } else {
            false
        }
    }

    /// Whether this is what `node` says.
    #[verifier::opaque]
    pub open spec fn is_from(&self, node: &XmlNode) -> bool {
        match self {
            EventConnectionBody::Assign(v) => node.tag@ == "Assign"@ && v.is_from(node),
        }
    }

    /// Reads the element by its tag. An element with another tag, or one
    /// that cannot be read, is an error.
    pub fn from_node(node: &XmlNode) -> (r: Result<Self, Error>)
        ensures
            match r {
                Ok(v) => Self::readable(node) && v.is_from(node),
                Err(e) => !Self::readable(node) && e == Error::XmlParse,
            },
    {
        reveal(EventConnectionBody::readable);
        reveal(EventConnectionBody::is_from);
        let tag = node.tag.as_str();
        if same(tag, "Assign") {
            match Assign::from_node(node) {
                Ok(v) => Ok(EventConnectionBody::Assign(v)),
                Err(e) => Err(e),
            }
        } else {
            Err(Error::XmlParse)
        }
    }
}

/// A connection that carries events from one instance to another.
#[allow(non_snake_case)]
#[derive(Clone, Debug, PartialEq)]
pub struct EventConnection {
    pub from: String,
    pub to: String,
    pub sourcePort: Option<String>,
    pub targetPort: Option<String>,
    pub receiver: Option<String>,
    pub receiverContainer: Option<String>,
    pub delay: Option<String>,
    pub body: Vec<EventConnectionBody>,
}

impl EventConnection {
    /// Whether `node` has all that must be there, in a form that can be read.
    pub open spec fn readable(node: &XmlNode) -> bool {
        &&& node.attr("from"@) is Some
        &&& node.attr("to"@) is Some
        &&& forall|i: int|
            0 <= i < node.children@.len() ==> EventConnectionBody::readable(&#[trigger] node.children@[i])
    }

    /// Whether this is what `node` says.
    pub open spec fn is_from(&self, node: &XmlNode) -> bool {
        &&& node.attr("from"@) == Some(self.from@)
        &&& node.attr("to"@) == Some(self.to@)
        &&& node.attr("sourcePort"@) == self.sourcePort.deep_view()
        &&& node.attr("targetPort"@) == self.targetPort.deep_view()
        &&& node.attr("receiver"@) == self.receiver.deep_view()
        &&& node.attr("receiverContainer"@) == self.receiverContainer.deep_view()
        &&& node.attr("delay"@) == self.delay.deep_view()
        &&& self.body@.len() == node.children@.len()
        &&& forall|i: int|
            0 <= i < self.body@.len() ==> (#[trigger] self.body@[i]).is_from(&node.children@[i])
    }

    /// Reads the element.
    pub fn from_node(node: &XmlNode) -> (r: Result<Self, Error>)
        ensures
            match r {
                Ok(v) => Self::readable(node) && v.is_from(node),
                Err(e) => !Self::readable(node) && e == Error::XmlParse,
            },
    {
        let mut body: Vec<EventConnectionBody> = Vec::new();
        let mut i: usize = 0;
        while i < node.children.len()
            invariant
                i <= node.children@.len(),
                body@.len() == i,
                forall|j: int|
                    0 <= j < i ==> EventConnectionBody::readable(&#[trigger] node.children@[j]),
                forall|j: int|
                    0 <= j < i ==> (#[trigger] body@[j]).is_from(&node.children@[j]),
            decreases node.children@.len() - i,
        {
            match EventConnectionBody::from_node(&node.children[i]) {
                Ok(v) => {
                    body.push(v);
                },
                Err(e) => {
                    return Err(e);
                },
            }
            i += 1;
        }
        let from = node.required("from")?;
        let to = node.required("to")?;
        let sourcePort = node.optional("sourcePort");
        let targetPort = node.optional("targetPort");
        let receiver = node.optional("receiver");
        let receiverContainer = node.optional("receiverContainer");
        let delay = node.optional("delay");
        Ok(EventConnection { from, to, sourcePort, targetPort, receiver, receiverContainer, delay, body })
    }
}

} // verus!
