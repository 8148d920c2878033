use zinc::lexical::BooleanLiteral;
use zinc::lexical::Lexeme;
use zinc::lexical::Literal;
use zinc::lexical::TokenStream;
use zinc::lexical::Location;
use zinc::lexical::Symbol;
use zinc::lexical::Token;
use zinc::syntax::tree::expression::structure::builder::Builder as StructureBuilder;
use zinc::syntax::tree::statement::let_statement::builder::Builder as LetBuilder;
use zinc::syntax::Error;
use zinc::syntax::Expression;
use zinc::syntax::OperandParser;
use zinc::syntax::Parse;
use zinc::syntax::XorTermParser;
use zinc::syntax::Identifier;

fn word(name: &str, column: usize) -> Token {
    Token::new(Lexeme::Identifier(String::from(name)), Location::new(1, column))
}

fn names(tokens: &[Token]) -> Vec<String> {
    tokens
        .iter()
        .map(|token| match &token.lexeme {
            Lexeme::Identifier(name) => name.clone(),
            Lexeme::Symbol(symbol) => format!("{:?}", symbol),
            Lexeme::Literal(literal) => literal.to_string(),
        })
        .collect()
}

#[test]
fn let_builder_hands_over_its_expression() {
    let mut builder = LetBuilder::default();
    builder.set_expression(vec![word("a", 1)]);
    builder.set_expression(vec![
        word("a", 1),
        word("b", 6),
        Token::new(Lexeme::Symbol(Symbol::BooleanAnd), Location::new(1, 3)),
    ]);
    let statement = builder.finish();
    assert_eq!(names(&statement.expression), vec!["a", "b", "BooleanAnd"]);
}

#[test]
fn structure_builder_pairs_fields_with_their_expressions() {
    let mut builder = StructureBuilder::default();
    builder.set_location(Location::new(3, 9));
    builder.set_path_expression(Expression::new(vec![word("Point", 9)]));
    builder.push_field_identifier(Identifier::new(Location::new(4, 5), String::from("x")));
    builder.set_field_expression(Expression::new(vec![word("wrong", 8)]));
    builder.set_field_expression(Expression::new(vec![word("one", 8)]));
    builder.push_field_identifier(Identifier::new(Location::new(5, 5), String::from("y")));
    builder.set_field_expression(Expression::new(vec![word("two", 8)]));
    builder.push_field_identifier(Identifier::new(Location::new(6, 5), String::from("z")));
    builder.set_field_expression(Expression::new(vec![word("three", 8), word("four", 9)]));
    let expression = builder.finish();
    assert_eq!(expression.location, Location::new(3, 9));
    assert_eq!(names(&expression.path.elements), vec!["Point"]);
    let fields: Vec<(String, Location, Vec<String>)> = expression
        .fields
        .iter()
        .map(|(identifier, value)| {
            (identifier.name.clone(), identifier.location, names(&value.elements))
        })
        .collect();
    assert_eq!(
        fields,
        vec![
            (String::from("x"), Location::new(4, 5), vec![String::from("one")]),
            (String::from("y"), Location::new(5, 5), vec![String::from("two")]),
            (
                String::from("z"),
                Location::new(6, 5),
                vec![String::from("three"), String::from("four")]
            ),
        ]
    );
}

#[test]
fn structure_without_fields_is_complete() {
    let mut builder = StructureBuilder::default();
    builder.set_path_expression(Expression::new(vec![]));
    builder.set_location(Location::new(1, 1));
    let expression = builder.finish();
    assert!(expression.fields.is_empty());
}

fn and(column: usize) -> Token {
    Token::new(Lexeme::Symbol(Symbol::BooleanAnd), Location::new(1, column))
}

fn or(column: usize) -> Token {
    Token::new(Lexeme::Symbol(Symbol::BooleanOr), Location::new(1, column))
}

fn truth(column: usize) -> Token {
    Token::new(Lexeme::Literal(Literal::Boolean(BooleanLiteral::True)), Location::new(1, column))
}

fn columns(tokens: &[Token]) -> Vec<usize> {
    tokens.iter().map(|token| token.location.column).collect()
}

fn rest_of(mut stream: TokenStream) -> Vec<usize> {
    let mut rest = Vec::new();
    while let Some(token) = stream.next() {
        rest.push(token.location.column);
    }
    rest
}

fn term(tokens: Vec<Token>) -> Result<(Vec<String>, Vec<usize>, Vec<usize>), Error> {
    let (rest, rpn) = XorTermParser::default().parse::<OperandParser>(TokenStream::new(tokens))?;
    Ok((names(&rpn), columns(&rpn), rest_of(rest)))
}

#[test]
fn token_stream_is_read_from_the_first_token() {
    let mut stream = TokenStream::new(vec![word("a", 1), word("b", 2), word("c", 3)]);
    assert!(!stream.is_empty());
    assert_eq!(stream.peek().map(|token| token.location.column), Some(1));
    assert_eq!(stream.next().map(|token| token.location.column), Some(1));
    assert_eq!(stream.peek().map(|token| token.location.column), Some(2));
    assert_eq!(rest_of(stream), vec![2, 3]);
    let mut empty = TokenStream::new(vec![]);
    assert!(empty.is_empty());
    assert!(empty.peek().is_none());
    assert!(empty.next().is_none());
}

#[test]
fn operand_is_a_single_literal_or_identifier() {
    let (rest, rpn) = OperandParser::parse(TokenStream::new(vec![word("a", 1), and(3)])).unwrap();
    assert_eq!((names(&rpn), rest_of(rest)), (vec![String::from("a")], vec![3]));
    let (rest, rpn) = OperandParser::parse(TokenStream::new(vec![truth(1)])).unwrap();
    assert_eq!((names(&rpn), rest_of(rest)), (vec![String::from("true")], vec![]));
    assert!(matches!(OperandParser::parse(TokenStream::new(vec![])), Err(Error::UnexpectedEnd)));
    match OperandParser::parse(TokenStream::new(vec![and(7), word("a", 10)])) {
        Err(Error::ExpectedOperand(token)) => assert_eq!(token.location, Location::new(1, 7)),
        _ => panic!("an operator is no operand"),
    }
}

#[test]
fn term_of_one_factor_is_that_factor() {
    assert_eq!(
        term(vec![word("a", 1)]).unwrap(),
        (vec![String::from("a")], vec![1], vec![])
    );
    assert_eq!(
        term(vec![word("a", 1), or(3), word("b", 6)]).unwrap(),
        (vec![String::from("a")], vec![1], vec![3, 6])
    );
    assert_eq!(
        term(vec![word("a", 1), word("b", 3)]).unwrap(),
        (vec![String::from("a")], vec![1], vec![3])
    );
}

#[test]
fn conjunction_puts_the_operator_behind_its_factors() {
    assert_eq!(
        term(vec![word("a", 1), and(3), word("b", 6)]).unwrap(),
        (vec![String::from("a"), String::from("b"), String::from("BooleanAnd")], vec![1, 6, 3], vec![])
    );
    assert_eq!(
        term(vec![word("a", 1), and(3), truth(6), and(11), word("c", 14), or(16), word("d", 19)])
            .unwrap(),
        (
            vec![
                String::from("a"),
                String::from("true"),
                String::from("BooleanAnd"),
                String::from("c"),
                String::from("BooleanAnd"),
            ],
            vec![1, 6, 3, 14, 11],
            vec![16, 19]
        )
    );
}

#[test]
fn conjunction_needs_a_factor_behind_its_operator() {
    assert!(matches!(term(vec![]), Err(Error::UnexpectedEnd)));
    assert!(matches!(term(vec![word("a", 1), and(3)]), Err(Error::UnexpectedEnd)));
    match term(vec![word("a", 1), and(3), and(6), word("b", 9)]) {
        Err(Error::ExpectedOperand(token)) => assert_eq!(token.location, Location::new(1, 6)),
        _ => panic!("an operator is no factor"),
    }
    match term(vec![or(1)]) {
        Err(Error::ExpectedOperand(token)) => assert_eq!(token.location, Location::new(1, 1)),
        _ => panic!("an operator is no factor"),
    }
}
