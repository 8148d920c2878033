//! The structure expression builder.

use crate::lexical::token::Location;
use crate::syntax::tree::expression::structure::StructureExpression;
use crate::syntax::tree::expression::Expression;
use crate::syntax::tree::identifier::Identifier;
use vstd::prelude::*;

verus! {

/// Collects the parts of a structure expression while it is parsed.
pub struct Builder {
    location: Option<Location>,
    path_expression: Option<Expression>,
    fields: Vec<(Identifier, Option<Expression>)>,
}

impl Default for Builder {
    fn default() -> (builder: Self)
        ensures
            builder.location() is None,
            builder.path_expression() is None,
            builder.fields() == Seq::<(Identifier, Option<Expression>)>::empty(),
    {
        Builder { location: None, path_expression: None, fields: Vec::new() }
    }
}

impl Builder {
    /// The location that has been set, if one has.
    pub closed spec fn location(&self) -> Option<Location> {
        self.location
    }

    /// The path expression that has been set, if one has.
    pub closed spec fn path_expression(&self) -> Option<Expression> {
        self.path_expression
    }

    /// The fields pushed so far, each with its expression if it has one.
    pub closed spec fn fields(&self) -> Seq<(Identifier, Option<Expression>)> {
        self.fields@
    }

    /// Whether every part of the expression is there.
    pub open spec fn is_complete(&self) -> bool {
        &&& self.location() is Some
        &&& self.path_expression() is Some
        &&& forall|i: int| 0 <= i < self.fields().len() ==> (#[trigger] self.fields()[i]).1 is Some
    }

    pub fn set_location(&mut self, value: Location)
        ensures
            final(self).location() == Some(value),
            final(self).path_expression() == old(self).path_expression(),
            final(self).fields() == old(self).fields(),
    {
        self.location = Some(value);
    }

    pub fn set_path_expression(&mut self, value: Expression)
        ensures
            final(self).path_expression() == Some(value),
            final(self).location() == old(self).location(),
            final(self).fields() == old(self).fields(),
    {
        self.path_expression = Some(value);
    }

    /// Begins a field, which has no expression yet.
    pub fn push_field_identifier(&mut self, value: Identifier)
        ensures
            final(self).fields() == old(self).fields().push((value, None)),
            final(self).location() == old(self).location(),
            final(self).path_expression() == old(self).path_expression(),
    {
        self.fields.push((value, None));
    }

    /// Gives the field begun last its expression. A field has to have been
    /// begun.
    pub fn set_field_expression(&mut self, value: Expression)
        requires
            old(self).fields().len() > 0,
        ensures
            final(self).fields() == old(self).fields().update(
                old(self).fields().len() - 1,
                (old(self).fields().last().0, Some(value)),
            ),
            final(self).location() == old(self).location(),
            final(self).path_expression() == old(self).path_expression(),
    {
        let (identifier, _) = self.fields.pop().unwrap();
        self.fields.push((identifier, Some(value)));
        assert(self.fields@ =~= old(self).fields@.update(
            old(self).fields@.len() - 1,
            (old(self).fields@.last().0, Some(value)),
        ));
    }

    /// The expression. Its location, its path and the expression of every
    /// field have to have been set.
    pub fn finish(self) -> (expression: StructureExpression)
        requires
            self.is_complete(),
        ensures
            Some(expression.location) == self.location(),
            Some(expression.path) == self.path_expression(),
            expression.fields@.len() == self.fields().len(),
            forall|i: int|
                0 <= i < self.fields().len() ==> (#[trigger] expression.fields@[i]).0
                    == self.fields()[i].0 && Some(expression.fields@[i].1) == self.fields()[i].1,
    {
        let mut builder = self;
        let location = builder.location.unwrap();
        let path = builder.path_expression.take().unwrap();
        let ghost all = builder.fields@;
        let mut reversed: Vec<(Identifier, Expression)> = Vec::new();
        while builder.fields.len() > 0
            invariant
                builder.fields@ == all.take(builder.fields@.len() as int),
                builder.fields@.len() <= all.len(),
                reversed@.len() == all.len() - builder.fields@.len(),
                forall|i: int| 0 <= i < all.len() ==> (#[trigger] all[i]).1 is Some,
                forall|i: int|
                    0 <= i < reversed@.len() ==> (#[trigger] reversed@[i]).0 == all[all.len() - 1
                        - i].0 && Some(reversed@[i].1) == all[all.len() - 1 - i].1,
            decreases builder.fields.len(),
        {
            let ghost before = builder.fields@;
            let (identifier, expression) = builder.fields.pop().unwrap();
            assert(before.last() == all[before.len() - 1]);
            assert(builder.fields@ =~= all.take(builder.fields@.len() as int));
            reversed.push((identifier, expression.unwrap()));
        }
        let mut fields: Vec<(Identifier, Expression)> = Vec::new();
        while reversed.len() > 0
            invariant
                reversed@.len() <= all.len(),
                fields@.len() == all.len() - reversed@.len(),
                forall|i: int|
                    0 <= i < reversed@.len() ==> (#[trigger] reversed@[i]).0 == all[all.len() - 1
                        - i].0 && Some(reversed@[i].1) == all[all.len() - 1 - i].1,
                forall|i: int|
                    0 <= i < fields@.len() ==> (#[trigger] fields@[i]).0 == all[i].0 && Some(
                        fields@[i].1,
                    ) == all[i].1,
            decreases reversed.len(),
        {
            let field = reversed.pop().unwrap();
            fields.push(field);
        }
        StructureExpression::new(location, path, fields)
    }
}

} // verus!
