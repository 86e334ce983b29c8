use lox::expression::{BinaryExpr, Expr, LiteralExpr, UnaryExpr};
use lox::token::{Token, TokenType};

#[test]
fn expression_to_string() {
    let literal_114 = LiteralExpr {
        token: Token::new(TokenType::Number, "114".to_string(), 1),
    };
    let literal_514 = LiteralExpr {
        token: Token::new(TokenType::Number, "514".to_string(), 1),
    };
    let token_plus = Token::new(TokenType::Plus, "+".to_string(), 1);

    //    +
    //  /   \
    // 114  514
    let binary = BinaryExpr {
        left: Box::new(Expr::Literal(literal_114)),
        operator: token_plus.clone(),
        right: Box::new(Expr::Literal(literal_514)),
    };
    let expr = Expr::Binary(binary);

    let correct_string = String::from("(+ 114 514)");
    assert_eq!(expr.to_string(), correct_string);

    let unary = Expr::Unary(UnaryExpr {
        operator: token_plus.clone(),
        expression: Box::new(Expr::Literal(LiteralExpr {
            token: Token::new(TokenType::Number, "514".to_string(), 1),
        })),
    });

    let complicated = Expr::Binary(BinaryExpr {
        left: Box::new(expr),
        operator: token_plus,
        right: Box::new(unary),
    });
    assert_eq!(complicated.to_string(), "(+ (+ 114 514) (+ 514))")
}

#[test]
fn assign_and_variable_to_string() {
    let expr = Expr::Assign(lox::expression::AssignExpr {
        lvar: Token::new(TokenType::Identifier, "a".to_string(), 1),
        value: Box::new(Expr::Variable(lox::expression::VariableExpr {
            var: Token::new(TokenType::Identifier, "b".to_string(), 1),
        })),
    });
    assert_eq!(expr.to_string(), "a = b");
}
