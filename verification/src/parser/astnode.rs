use vstd::prelude::*;

use std::rc::Rc;

use crate::numerals::{decimal, isize_to_text};
use crate::parser::error::{ParserError, ParserErrorView};
use crate::symbols::{owned_text, Operators};

verus! {

/// The nodes of the Abstract Syntax Tree
///
/// A floating-point number is held as the decimal numeral it was written as; reading it as
/// a 64-bit float is left to the program that evaluates the tree.
#[derive(Debug, PartialEq, Clone)]
pub enum AstNode {
    /// Integers are signed and system-sized
    Integer(isize),
    /// Floats are held as their numeral
    Float(String),
    /// Booleans are `bool`s
    Boolean(bool),
    /// String literals
    String(String),
    /// Object identifiers
    Identifier(String),
    /// Environments: a name (or `None` for anonymous ones), the elements bound in them, and
    /// the parent environment (or `None` for the global environment).
    Environment { name: Option<String>, bindings: Vec<Rc<AstNode>>, parent: Option<Rc<AstNode>> },
    /// Binary operations: the left-hand side, the operator and the right-hand side.
    BinaryOp { left: Rc<AstNode>, operator: Operators, right: Rc<AstNode> },
    /// Unary operations: the operator and its operand.
    UnaryOp { op: Operators, operand: Rc<AstNode> },
    /// Assignments: the name, the value (or `None` if unassigned), and the inheritance clause
    /// (or `None` if there is no inheritance).
    Let { name: String, value: Option<Rc<AstNode>>, inherit: Option<Rc<AstNode>> },
    /// Inheritance clauses: the inherited names, or `None` for wildcard inheritance.
    Inherit { names: Option<Vec<String>> },
    /// Functions: parameters (as [`AstNode::FunctionArgs`]), body and return environment.
    Function { params: Rc<AstNode>, body: Rc<AstNode>, return_env: Rc<AstNode> },
    /// Function arguments: the argument identifiers.
    FunctionArgs(Vec<Rc<AstNode>>),
    /// Function calls: the function called and its arguments (as [`AstNode::FunctionArgs`]).
    FunctionCall { id: Rc<AstNode>, args: Rc<AstNode> },
}

/// The mathematical value of an [`AstNode`]: texts become character sequences, pointers the
/// values pointed to.
pub enum AstNodeView {
    Integer(isize),
    Float(Seq<char>),
    Boolean(bool),
    String(Seq<char>),
    Identifier(Seq<char>),
    Environment {
        name: Option<Seq<char>>,
        bindings: Seq<AstNodeView>,
        parent: Option<Box<AstNodeView>>,
    },
    BinaryOp { left: Box<AstNodeView>, operator: Operators, right: Box<AstNodeView> },
    UnaryOp { op: Operators, operand: Box<AstNodeView> },
    Let { name: Seq<char>, value: Option<Box<AstNodeView>>, inherit: Option<Box<AstNodeView>> },
    Inherit { names: Option<Seq<Seq<char>>> },
    Function { params: Box<AstNodeView>, body: Box<AstNodeView>, return_env: Box<AstNodeView> },
    FunctionArgs(Seq<AstNodeView>),
    FunctionCall { id: Box<AstNodeView>, args: Box<AstNodeView> },
}

pub open spec fn opt_text(s: Option<String>) -> Option<Seq<char>> {
    match s {
        Some(t) => Some(t@),
        None => None,
    }
}

pub open spec fn texts_of(v: Seq<String>) -> Seq<Seq<char>> {
    v.map_values(|s: String| s@)
}

/// The view of a node.
pub open spec fn node_view(n: AstNode) -> AstNodeView
    decreases n, 1int,
{
    match n {
        AstNode::Integer(i) => AstNodeView::Integer(i),
        AstNode::Float(s) => AstNodeView::Float(s@),
        AstNode::Boolean(b) => AstNodeView::Boolean(b),
        AstNode::String(s) => AstNodeView::String(s@),
        AstNode::Identifier(s) => AstNodeView::Identifier(s@),
        AstNode::Environment { name, bindings, parent } => AstNodeView::Environment {
            name: opt_text(name),
            bindings: nodes_view(bindings@),
            parent: match parent {
                Some(p) => Some(Box::new(node_view(*p))),
                None => None,
            },
        },
        AstNode::BinaryOp { left, operator, right } => AstNodeView::BinaryOp {
            left: Box::new(node_view(*left)),
            operator: operator,
            right: Box::new(node_view(*right)),
        },
        AstNode::UnaryOp { op, operand } => AstNodeView::UnaryOp {
            op: op,
            operand: Box::new(node_view(*operand)),
        },
        AstNode::Let { name, value, inherit } => AstNodeView::Let {
            name: name@,
            value: match value {
                Some(v) => Some(Box::new(node_view(*v))),
                None => None,
            },
            inherit: match inherit {
                Some(i) => Some(Box::new(node_view(*i))),
                None => None,
            },
        },
        AstNode::Inherit { names } => AstNodeView::Inherit {
            names: match names {
                Some(ns) => Some(texts_of(ns@)),
                None => None,
            },
        },
        AstNode::Function { params, body, return_env } => AstNodeView::Function {
            params: Box::new(node_view(*params)),
            body: Box::new(node_view(*body)),
            return_env: Box::new(node_view(*return_env)),
        },
        AstNode::FunctionArgs(args) => AstNodeView::FunctionArgs(nodes_view(args@)),
        AstNode::FunctionCall { id, args } => AstNodeView::FunctionCall {
            id: Box::new(node_view(*id)),
            args: Box::new(node_view(*args)),
        },
    }
}

/// The views of a sequence of nodes.
pub open spec fn nodes_view(s: Seq<Rc<AstNode>>) -> Seq<AstNodeView>
    decreases s, 0int,
{
    if s.len() == 0 {
        Seq::empty()
    } else {
        nodes_view(s.drop_last()).push(node_view(*s.last()))
    }
}

impl View for AstNode {
    type V = AstNodeView;

    open spec fn view(&self) -> AstNodeView {
        node_view(*self)
    }
}

pub proof fn lemma_nodes_view_len(s: Seq<Rc<AstNode>>)
    ensures
        nodes_view(s).len() == s.len(),
    decreases s.len(),
{
    if s.len() > 0 {
        lemma_nodes_view_len(s.drop_last());
    }
}

pub proof fn lemma_nodes_view_index(s: Seq<Rc<AstNode>>, i: int)
    requires
        0 <= i < s.len(),
    ensures
        nodes_view(s)[i] == node_view(*s[i]),
        nodes_view(s).len() == s.len(),
    decreases s.len(),
{
    lemma_nodes_view_len(s);
    if i < s.len() - 1 {
        lemma_nodes_view_index(s.drop_last(), i);
    }
}

pub proof fn lemma_nodes_view_push(s: Seq<Rc<AstNode>>, n: Rc<AstNode>)
    ensures
        nodes_view(s.push(n)) == nodes_view(s).push(node_view(*n)),
{
    assert(s.push(n).drop_last() =~= s);
}

pub proof fn lemma_nodes_view_drop_last(s: Seq<Rc<AstNode>>)
    requires
        s.len() > 0,
    ensures
        nodes_view(s.drop_last()) == nodes_view(s).drop_last(),
        nodes_view(s).last() == node_view(*s.last()),
{
    lemma_nodes_view_len(s.drop_last());
}

/// Every node view in `s` is of a sequence of nodes, in order.
pub proof fn lemma_nodes_view_subrange(s: Seq<Rc<AstNode>>, j: int)
    requires
        0 <= j <= s.len(),
    ensures
        nodes_view(s.subrange(0, j)) == nodes_view(s).subrange(0, j),
    decreases s.len() - j,
{
    lemma_nodes_view_len(s);
    if j < s.len() {
        lemma_nodes_view_subrange(s.drop_last(), j);
        assert(s.drop_last().subrange(0, j) =~= s.subrange(0, j));
        lemma_nodes_view_len(s.drop_last());
        assert(nodes_view(s.drop_last()).subrange(0, j) =~= nodes_view(s).subrange(0, j));
    } else {
        assert(s.subrange(0, j) =~= s);
        assert(nodes_view(s).subrange(0, j) =~= nodes_view(s));
    }
}

/// The texts of `parts` joined with `sep` between them.
pub open spec fn join(parts: Seq<Seq<char>>, sep: Seq<char>) -> Seq<char>
    decreases parts.len(),
{
    if parts.len() == 0 {
        Seq::empty()
    } else if parts.len() == 1 {
        parts[0]
    } else {
        join(parts.drop_last(), sep) + sep + parts.last()
    }
}

/// The text of a node, as shown to a reader; a float shows as the numeral it was written as.
///
/// An assignment shows its name and value and always ends "with no inherited elements": its
/// inheritance clause, if any, is not shown (the names of a clause show in the clause's own
/// text).
pub open spec fn node_text(n: AstNodeView) -> Seq<char>
    decreases n, 1int,
{
    match n {
        AstNodeView::Integer(i) => decimal(i as int),
        AstNodeView::Float(s) => s,
        AstNodeView::Boolean(b) => if b {
            "true"@
        } else {
            "false"@
        },
        AstNodeView::String(s) => s,
        AstNodeView::Identifier(s) => s,
        AstNodeView::Environment { name, .. } => match name {
            Some(nm) => "Environment '"@ + nm + "'"@,
            None => "Anonymous environment"@,
        },
        AstNodeView::BinaryOp { left, operator, right } => node_text(*left) + " "@
            + operator.text() + " "@ + node_text(*right),
        AstNodeView::UnaryOp { op, operand } => op.text() + node_text(*operand),
        AstNodeView::Let { name, value, .. } => "Let "@ + name + " = "@ + match value {
            Some(v) => node_text(*v),
            None => "nothing"@,
        } + " with no inherited elements"@,
        AstNodeView::Inherit { names } => "Inherit elements '"@ + match names {
            Some(ns) => join(ns, ", "@),
            None => "*"@,
        } + "'"@,
        AstNodeView::Function { params, .. } => "Function with params "@ + node_text(*params),
        AstNodeView::FunctionArgs(args) => "["@ + join(nodes_text(args), ", "@) + "]"@,
        AstNodeView::FunctionCall { id, args } => "Function call to "@ + node_text(*id)
            + " with arguments "@ + node_text(*args),
    }
}

pub open spec fn nodes_text(s: Seq<AstNodeView>) -> Seq<Seq<char>>
    decreases s, 0int,
{
    if s.len() == 0 {
        Seq::empty()
    } else {
        nodes_text(s.drop_last()).push(node_text(s.last()))
    }
}

impl AstNode {
    /// Shows the node as text.
    ///
    /// Integers, booleans, strings and identifiers show as themselves, floats as the numeral
    /// they were written as; environments by name; an assignment by name and value, always
    /// "with no inherited elements" whatever its inheritance clause;
    /// operations, assignments, inheritance clauses, functions and calls by their parts.
    pub fn to_string(&self) -> (s: String)
        ensures
            s@ == node_text(self@),
        decreases self,
    {
        match self {
            AstNode::Integer(num) => isize_to_text(*num),
            AstNode::Float(num) => num.clone(),
            AstNode::Boolean(b) => {
                if *b {
                    owned_text("true")
                } else {
                    owned_text("false")
                }
            },
            AstNode::String(s) => s.clone(),
            AstNode::Identifier(name) => name.clone(),
            AstNode::Environment { name, .. } => {
                if let Some(name) = name {
                    let mut s = owned_text("Environment '");
                    s.append(name.as_str());
                    s.append("'");
                    s
                } else {
                    owned_text("Anonymous environment")
                }
            },
            AstNode::BinaryOp { left, operator, right } => {
                let mut s = (**left).to_string();
                s.append(" ");
                s.append(operator.to_string().as_str());
                s.append(" ");
                s.append((**right).to_string().as_str());
                s
            },
            AstNode::UnaryOp { op, operand } => {
                let mut s = op.to_string();
                s.append((**operand).to_string().as_str());
                s
            },
            AstNode::Let { name, value, .. } => {
                let mut s = owned_text("Let ");
                s.append(name.as_str());
                s.append(" = ");
                match value {
                    Some(val) => s.append((**val).to_string().as_str()),
                    None => s.append("nothing"),
                }
                s.append(" with no inherited elements");
                s
            },
            AstNode::Inherit { names } => {
                let mut s = owned_text("Inherit elements '");
                match names {
                    Some(names) => {
                        let j = join_strings(names);
                        s.append(j.as_str());
                    },
                    None => s.append("*"),
                }
                s.append("'");
                s
            },
            AstNode::Function { params, .. } => {
                let mut s = owned_text("Function with params ");
                s.append((**params).to_string().as_str());
                s
            },
            AstNode::FunctionArgs(params) => {
                let mut s = owned_text("[");
                let mut i: usize = 0;
                let ghost views = nodes_view(params@);
                proof {
                    lemma_nodes_view_len(params@);
                }
                while i < params.len()
                    invariant
                        *self == AstNode::FunctionArgs(*params),
                        i <= params.len(),
                        views == nodes_view(params@),
                        views.len() == params@.len(),
                        s@ == "["@ + join(nodes_text(views.subrange(0, i as int)), ", "@),
                    decreases params.len() - i,
                {
                    proof {
                        lemma_nodes_view_index(params@, i as int);
                    }
                    proof {
                        let ps = self->FunctionArgs_0;
                        assert(ps == *params);
                        assert(decreases_to!(*self => ps));
                        assert(decreases_to!(ps => ps@));
                        assert(decreases_to!(ps@ => ps@[i as int]));
                    }
                    let t = (*params[i]).to_string();
                    if i > 0 {
                        s.append(", ");
                    }
                    s.append(t.as_str());
                    proof {
                        lemma_join_step(views, i as int);
                    }
                    i += 1;
                }
                assert(views.subrange(0, params.len() as int) =~= views);
                s.append("]");
                s
            },
            AstNode::FunctionCall { id, args } => {
                let mut s = owned_text("Function call to ");
                s.append((**id).to_string().as_str());
                s.append(" with arguments ");
                s.append((**args).to_string().as_str());
                s
            },
        }
    }

    /// A copy of the node; the nodes it points to are shared, not copied.
    pub fn duplicate(&self) -> (r: AstNode)
        ensures
            r@ == self@,
    {
        match self {
            AstNode::Integer(i) => AstNode::Integer(*i),
            AstNode::Float(s) => AstNode::Float(s.clone()),
            AstNode::Boolean(b) => AstNode::Boolean(*b),
            AstNode::String(s) => AstNode::String(s.clone()),
            AstNode::Identifier(s) => AstNode::Identifier(s.clone()),
            AstNode::Environment { name, bindings, parent } => AstNode::Environment {
                name: copy_name(name),
                bindings: copy_nodes(bindings),
                parent: copy_link(parent),
            },
            AstNode::BinaryOp { left, operator, right } => AstNode::BinaryOp {
                left: left.clone(),
                operator: *operator,
                right: right.clone(),
            },
            AstNode::UnaryOp { op, operand } => AstNode::UnaryOp { op: *op, operand: operand.clone() },
            AstNode::Let { name, value, inherit } => AstNode::Let {
                name: name.clone(),
                value: copy_link(value),
                inherit: copy_link(inherit),
            },
            AstNode::Inherit { names } => AstNode::Inherit {
                names: match names {
                    Some(ns) => Some(copy_strings(ns)),
                    None => None,
                },
            },
            AstNode::Function { params, body, return_env } => AstNode::Function {
                params: params.clone(),
                body: body.clone(),
                return_env: return_env.clone(),
            },
            AstNode::FunctionArgs(args) => AstNode::FunctionArgs(copy_nodes(args)),
            AstNode::FunctionCall { id, args } => AstNode::FunctionCall {
                id: id.clone(),
                args: args.clone(),
            },
        }
    }

    /// Sets a field of an assignment or a function argument list through `field_setter`,
    /// returning what it returns.
    ///
    /// # Errors
    /// * [`ParserError::ParserLogicError`]: the node is neither an assignment nor a function
    ///   argument list; it is left as it is.
    /// * Any error that `field_setter` returns.
    pub fn set_field<T>(
        &mut self,
        field_setter: impl FnOnce(&mut AstNode) -> Result<(), ParserError>,
    ) -> (r: Result<(), ParserError>)
        requires
            (old(self)@ is Let || old(self)@ is FunctionArgs) ==> forall|m: &mut AstNode|
                *m == *old(self) ==> field_setter.requires((m,)),
        ensures
            (old(self)@ is Let || old(self)@ is FunctionArgs) ==> exists|m: &mut AstNode|
                *m == *old(self) && *final(m) == *final(self) && #[trigger] field_setter.ensures(
                    (m,),
                    r,
                ),
            !(old(self)@ is Let || old(self)@ is FunctionArgs) ==> (r matches Err(e) && e@
                == ParserErrorView::ParserLogicError(0, 0)) && *final(self) == *old(self),
    {
        let target = match self {
            AstNode::Let { .. } | AstNode::FunctionArgs(_) => true,
            _ => false,
        };
        if target {
            field_setter(&mut *self)
        } else {
            Err(ParserError::ParserLogicError(0, 0))
        }
    }

    /// Checks whether the node is an environment
    pub fn is_environment(&self) -> (r: bool)
        ensures
            r == (self@ is Environment),
    {
        match self {
            AstNode::Environment { .. } => true,
            _ => false,
        }
    }

    /// Checks whether the node is an environment with a single element
    pub fn is_single_element_env(&self) -> (r: bool)
        ensures
            r == (self@ matches AstNodeView::Environment { bindings, .. } && bindings.len() == 1),
    {
        match self {
            AstNode::Environment { bindings, .. } => {
                proof {
                    lemma_nodes_view_len(bindings@);
                }
                bindings.len() == 1
            },
            _ => false,
        }
    }

    /// Gets the bindings of an environment
    pub fn get_bindings(&self) -> (r: Option<Vec<Rc<AstNode>>>)
        ensures
            match self@ {
                AstNodeView::Environment { bindings, .. } => r matches Some(v) && nodes_view(v@)
                    == bindings,
                _ => r is None,
            },
    {
        match self {
            AstNode::Environment { bindings, .. } => Some(copy_nodes(bindings)),
            _ => None,
        }
    }

    /// Gets the name of an environment
    pub fn get_name(&self) -> (r: Option<String>)
        ensures
            match self@ {
                AstNodeView::Environment { name, .. } => opt_text(r) == name,
                _ => r is None,
            },
    {
        match self {
            AstNode::Environment { name, .. } => match name {
                Some(n) => Some(n.clone()),
                None => None,
            },
            _ => None,
        }
    }

    /// Gets the parent of an environment
    pub fn get_parent(&self) -> (r: Option<Rc<AstNode>>)
        ensures
            match self@ {
                AstNodeView::Environment { parent, .. } => match (r, parent) {
                    (Some(p), Some(q)) => node_view(*p) == *q,
                    (None, None) => true,
                    _ => false,
                },
                _ => r is None,
            },
    {
        match self {
            AstNode::Environment { parent, .. } => match parent {
                Some(p) => Some(p.clone()),
                None => None,
            },
            _ => None,
        }
    }

    /// Gets the function arguments/parameters
    pub fn get_params(&self) -> (r: Option<Vec<Rc<AstNode>>>)
        ensures
            match self@ {
                AstNodeView::FunctionArgs(args) => r matches Some(v) && nodes_view(v@) == args,
                _ => r is None,
            },
    {
        match self {
            AstNode::FunctionArgs(names) => Some(copy_nodes(names)),
            _ => None,
        }
    }

    /// Gets the names of an inheritance clause (`None` for wildcard inheritance and for
    /// other nodes)
    pub fn get_inherited_names(&self) -> (r: Option<Vec<String>>)
        ensures
            match self@ {
                AstNodeView::Inherit { names: Some(ns) } => r matches Some(v) && texts_of(v@) == ns,
                _ => r is None,
            },
    {
        match self {
            AstNode::Inherit { names } => {
                if let Some(names) = names {
                    Some(copy_strings(names))
                } else {
                    None
                }
            },
            _ => None,
        }
    }

    /// Adds a name to an inheritance clause
    ///
    /// # Errors
    /// * [`ParserError::WildcardAndElements`]: the clause is a wildcard.
    /// * [`ParserError::NotInheritClause`]: the node is not an inheritance clause.
    pub fn push_inherited_name(&mut self, node: String) -> (r: Result<(), ParserError>)
        ensures
            match old(self)@ {
                AstNodeView::Inherit { names: Some(ns) } => r is Ok && final(self)@
                    == (AstNodeView::Inherit { names: Some(ns.push(node@)) }),
                AstNodeView::Inherit { names: None } => (r matches Err(e) && e@
                    == ParserErrorView::WildcardAndElements(
                    0,
                    0,
                    "wrong implementation"@,
                )) && final(self)@ == old(self)@,
                _ => r matches Err(ParserError::NotInheritClause) && final(self)@ == old(self)@,
            },
    {
        match self {
            AstNode::Inherit { names } => {
                if let Some(names) = names {
                    let ghost before = texts_of(names@);
                    names.push(node);
                    assert(texts_of(names@) =~= before.push(node@));
                    Ok(())
                } else {
                    Err(ParserError::WildcardAndElements(0, 0, owned_text("wrong implementation")))
                }
            },
            _ => Err(ParserError::NotInheritClause),
        }
    }
}

/// A copy of an optional name.
pub fn copy_name(n: &Option<String>) -> (r: Option<String>)
    ensures
        opt_text(r) == opt_text(*n),
{
    match n {
        Some(s) => Some(s.clone()),
        None => None,
    }
}

/// A copy of an optional node pointer.
pub fn copy_link(p: &Option<Rc<AstNode>>) -> (r: Option<Rc<AstNode>>)
    ensures
        r == *p,
{
    match p {
        Some(n) => Some(n.clone()),
        None => None,
    }
}

/// A copy of a vector of node pointers.
pub fn copy_nodes(v: &Vec<Rc<AstNode>>) -> (r: Vec<Rc<AstNode>>)
    ensures
        r@ == v@,
{
    let mut r: Vec<Rc<AstNode>> = Vec::new();
    let mut i: usize = 0;
    while i < v.len()
        invariant
            i <= v.len(),
            r@ == v@.subrange(0, i as int),
        decreases v.len() - i,
    {
        r.push(v[i].clone());
        i += 1;
        assert(r@ =~= v@.subrange(0, i as int));
    }
    assert(v@.subrange(0, v.len() as int) =~= v@);
    r
}

/// A copy of a vector of strings.
pub fn copy_strings(v: &Vec<String>) -> (r: Vec<String>)
    ensures
        texts_of(r@) == texts_of(v@),
{
    let mut r: Vec<String> = Vec::new();
    let mut i: usize = 0;
    while i < v.len()
        invariant
            i <= v.len(),
            texts_of(r@) == texts_of(v@.subrange(0, i as int)),
        decreases v.len() - i,
    {
        let ghost before = r@;
        let c = v[i].clone();
        assert(c@ == v@[i as int]@);
        r.push(c);
        i += 1;
        assert(texts_of(r@) =~= texts_of(before).push(v@[i - 1]@));
        assert(texts_of(v@.subrange(0, i as int)) =~= texts_of(v@.subrange(0, i - 1)).push(
            v@[i - 1]@,
        ));
    }
    assert(v@.subrange(0, v.len() as int) =~= v@);
    r
}

/// The strings joined with `", "` between them.
fn join_strings(v: &Vec<String>) -> (s: String)
    ensures
        s@ == join(texts_of(v@), ", "@),
{
    let mut s = String::new();
    let mut i: usize = 0;
    let ghost t = texts_of(v@);
    while i < v.len()
        invariant
            i <= v.len(),
            t == texts_of(v@),
            s@ == join(t.subrange(0, i as int), ", "@),
        decreases v.len() - i,
    {
        if i > 0 {
            s.append(", ");
        }
        s.append(v[i].as_str());
        proof {
            let a = t.subrange(0, i as int);
            let b = t.subrange(0, i + 1);
            assert(b.drop_last() =~= a);
            if i == 0 {
                assert(s@ =~= b[0]);
            } else {
                assert(s@ =~= join(a, ", "@) + ", "@ + b.last());
            }
        }
        i += 1;
    }
    assert(t.subrange(0, v.len() as int) =~= t);
    s
}

proof fn lemma_nodes_text_len(s: Seq<AstNodeView>)
    ensures
        nodes_text(s).len() == s.len(),
    decreases s.len(),
{
    if s.len() > 0 {
        lemma_nodes_text_len(s.drop_last());
    }
}

proof fn lemma_join_step(views: Seq<AstNodeView>, i: int)
    requires
        0 <= i < views.len(),
    ensures
        join(nodes_text(views.subrange(0, i + 1)), ", "@) == if i == 0 {
            node_text(views[i])
        } else {
            join(nodes_text(views.subrange(0, i)), ", "@) + ", "@ + node_text(views[i])
        },
{
    let a = views.subrange(0, i);
    let b = views.subrange(0, i + 1);
    assert(b.drop_last() =~= a);
    lemma_nodes_text_len(a);
    lemma_nodes_text_len(b);
    assert(nodes_text(b).drop_last() =~= nodes_text(a));
}

} // verus!
