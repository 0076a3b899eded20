//! The abstract syntax tree and its mathematical view.
use vstd::prelude::*;

verus! {

broadcast use vstd::std_specs::vec::group_vec_axioms;

#[derive(Debug, PartialEq)]
pub struct Program {
    pub statements: Vec<Statement>,
}

#[derive(Debug, PartialEq)]
pub enum Statement {
    Let(LetStatement),
    Assignment(AssignmentStatement),
    If(IfStatement),
    While(WhileStatement),
    For(ForStatement),
    Block(Vec<Statement>),
    Return(ReturnStatement),
    Write(WriteStatement),
    Expression(Expression),
    FunctionDeclaration(FunctionDeclaration),
}

#[derive(Debug, PartialEq)]
pub struct LetStatement {
    pub name: String,
    pub value: Expression,
}

#[derive(Debug, PartialEq)]
pub struct AssignmentStatement {
    pub name: String,
    pub value: Expression,
}

#[derive(Debug, PartialEq)]
pub struct IfStatement {
    pub condition: Expression,
    pub consequence: Vec<Statement>,
    pub alternative: Option<Vec<Statement>>,
}

#[derive(Debug, PartialEq)]
pub struct WhileStatement {
    pub condition: Expression,
    pub body: Vec<Statement>,
}

#[derive(Debug, PartialEq)]
pub struct ForStatement {
    pub item: String,
    pub list: Expression,
    pub body: Vec<Statement>,
}

#[derive(Debug, PartialEq)]
pub struct ReturnStatement {
    pub value: Option<Expression>,
}

#[derive(Debug, PartialEq)]
pub struct WriteStatement {
    pub value: Expression,
}

#[derive(Debug, PartialEq)]
pub struct FunctionDeclaration {
    pub name: String,
    pub params: Vec<String>,
    pub body: Vec<Statement>,
}

#[derive(Debug, PartialEq)]
pub enum Expression {
    Integer(i64),
    String(String),
    Boolean(bool),
    Nil,
    Identifier(String),
    Array(Vec<Expression>),
    Unary(UnaryExpression),
    Binary(BinaryExpression),
    FunctionCall(FunctionCallExpression),
    Assignment(AssignmentExpression),
}

#[derive(Debug, PartialEq)]
pub struct UnaryExpression {
    pub operator: String,
    pub right: Box<Expression>,
}

#[derive(Debug, PartialEq)]
pub struct BinaryExpression {
    pub left: Box<Expression>,
    pub operator: String,
    pub right: Box<Expression>,
}

#[derive(Debug, PartialEq)]
pub struct FunctionCallExpression {
    pub name: String,
    pub arguments: Vec<Expression>,
}

#[derive(Debug, PartialEq)]
pub struct AssignmentExpression {
    pub name: String,
    pub value: Box<Expression>,
}

/// Mathematical expression.
pub enum SExpr {
    Integer(i64),
    Str(Seq<char>),
    Boolean(bool),
    Nil,
    Identifier(Seq<char>),
    Array(Seq<SExpr>),
    Unary(Seq<char>, Box<SExpr>),
    Binary(Box<SExpr>, Seq<char>, Box<SExpr>),
    Call(Seq<char>, Seq<SExpr>),
    Assign(Seq<char>, Box<SExpr>),
}

/// Mathematical statement.
pub enum SStmt {
    Let(Seq<char>, SExpr),
    Assign(Seq<char>, SExpr),
    If(SExpr, Seq<SStmt>, Option<Seq<SStmt>>),
    While(SExpr, Seq<SStmt>),
    For(Seq<char>, SExpr, Seq<SStmt>),
    Block(Seq<SStmt>),
    Return(Option<SExpr>),
    Write(SExpr),
    Expr(SExpr),
    Func(Seq<char>, Seq<Seq<char>>, Seq<SStmt>),
}

pub open spec fn expr_v(e: Expression) -> SExpr
    decreases e,
{
    match e {
        Expression::Integer(n) => SExpr::Integer(n),
        Expression::String(s) => SExpr::Str(s@),
        Expression::Boolean(b) => SExpr::Boolean(b),
        Expression::Nil => SExpr::Nil,
        Expression::Identifier(s) => SExpr::Identifier(s@),
        Expression::Array(v) => SExpr::Array(exprs_v(v@)),
        Expression::Unary(u) => SExpr::Unary(u.operator@, Box::new(expr_v(*u.right))),
        Expression::Binary(b) => SExpr::Binary(
            Box::new(expr_v(*b.left)),
            b.operator@,
            Box::new(expr_v(*b.right)),
        ),
        Expression::FunctionCall(c) => SExpr::Call(c.name@, exprs_v(c.arguments@)),
        Expression::Assignment(a) => SExpr::Assign(a.name@, Box::new(expr_v(*a.value))),
    }
}

pub open spec fn exprs_v(s: Seq<Expression>) -> Seq<SExpr>
    decreases s,
{
    if s.len() == 0 {
        seq![]
    } else {
        exprs_v(s.subrange(0, s.len() - 1)).push(expr_v(s[s.len() - 1]))
    }
}

pub open spec fn names_v(s: Seq<String>) -> Seq<Seq<char>> {
    s.map_values(|x: String| x@)
}

pub open spec fn stmt_v(s: Statement) -> SStmt
    decreases s,
{
    match s {
        Statement::Let(l) => SStmt::Let(l.name@, expr_v(l.value)),
        Statement::Assignment(a) => SStmt::Assign(a.name@, expr_v(a.value)),
        Statement::If(i) => SStmt::If(
            expr_v(i.condition),
            stmts_v(i.consequence@),
            match i.alternative {
                Some(alt) => Some(stmts_v(alt@)),
                None => None,
            },
        ),
        Statement::While(w) => SStmt::While(expr_v(w.condition), stmts_v(w.body@)),
        Statement::For(f) => SStmt::For(f.item@, expr_v(f.list), stmts_v(f.body@)),
        Statement::Block(b) => SStmt::Block(stmts_v(b@)),
        Statement::Return(r) => SStmt::Return(
            match r.value {
                Some(v) => Some(expr_v(v)),
                None => None,
            },
        ),
        Statement::Write(w) => SStmt::Write(expr_v(w.value)),
        Statement::Expression(e) => SStmt::Expr(expr_v(e)),
        Statement::FunctionDeclaration(f) => SStmt::Func(f.name@, names_v(f.params@), stmts_v(f.body@)),
    }
}

pub open spec fn stmts_v(s: Seq<Statement>) -> Seq<SStmt>
    decreases s,
{
    if s.len() == 0 {
        seq![]
    } else {
        stmts_v(s.subrange(0, s.len() - 1)).push(stmt_v(s[s.len() - 1]))
    }
}

pub proof fn lemma_exprs_v_len(s: Seq<Expression>)
    ensures
        exprs_v(s).len() == s.len(),
    decreases s.len(),
{
    if s.len() > 0 {
        lemma_exprs_v_len(s.subrange(0, s.len() - 1));
    }
}

pub proof fn lemma_exprs_v_index(s: Seq<Expression>, i: int)
    requires
        0 <= i < s.len(),
    ensures
        exprs_v(s).len() == s.len(),
        exprs_v(s)[i] == expr_v(s[i]),
    decreases s.len(),
{
    lemma_exprs_v_len(s);
    if i < s.len() - 1 {
        lemma_exprs_v_index(s.subrange(0, s.len() - 1), i);
    }
}

pub proof fn lemma_exprs_v_push(s: Seq<Expression>, e: Expression)
    ensures
        exprs_v(s.push(e)) == exprs_v(s).push(expr_v(e)),
{
    assert(s.push(e).subrange(0, s.len() as int) =~= s);
}

pub proof fn lemma_stmts_v_len(s: Seq<Statement>)
    ensures
        stmts_v(s).len() == s.len(),
    decreases s.len(),
{
    if s.len() > 0 {
        lemma_stmts_v_len(s.subrange(0, s.len() - 1));
    }
}

pub proof fn lemma_stmts_v_index(s: Seq<Statement>, i: int)
    requires
        0 <= i < s.len(),
    ensures
        stmts_v(s).len() == s.len(),
        stmts_v(s)[i] == stmt_v(s[i]),
    decreases s.len(),
{
    lemma_stmts_v_len(s);
    if i < s.len() - 1 {
        lemma_stmts_v_index(s.subrange(0, s.len() - 1), i);
    }
}

pub proof fn lemma_stmts_v_push(s: Seq<Statement>, e: Statement)
    ensures
        stmts_v(s.push(e)) == stmts_v(s).push(stmt_v(e)),
{
    assert(s.push(e).subrange(0, s.len() as int) =~= s);
}

/// Copies of names have the same view.
pub fn copy_names(v: &Vec<String>) -> (r: Vec<String>)
    ensures
        names_v(r@) == names_v(v@),
{
    let mut out: Vec<String> = Vec::new();
    let mut i: usize = 0;
    while i < v.len()
        invariant
            0 <= i <= v@.len(),
            out@.len() == i,
            forall|j: int| 0 <= j < i ==> out@[j]@ == v@[j]@,
        decreases v@.len() - i,
    {
        out.push(v[i].clone());
        i = i + 1;
    }
    assert(names_v(out@) =~= names_v(v@));
    out
}

impl Expression {
    /// A deep copy with the same view.
    pub fn deep_copy(&self) -> (r: Expression)
        ensures
            expr_v(r) == expr_v(*self),
        decreases *self,
    {
        match self {
            Expression::Integer(n) => Expression::Integer(*n),
            Expression::String(s) => Expression::String(s.clone()),
            Expression::Boolean(b) => Expression::Boolean(*b),
            Expression::Nil => Expression::Nil,
            Expression::Identifier(s) => Expression::Identifier(s.clone()),
            Expression::Array(v) => {
                assert(decreases_to!(*self => (*self)->Array_0));
                Expression::Array(copy_exprs(v))
            },
            Expression::Unary(u) => Expression::Unary(
                UnaryExpression { operator: u.operator.clone(), right: Box::new(u.right.deep_copy()) },
            ),
            Expression::Binary(b) => Expression::Binary(
                BinaryExpression {
                    left: Box::new(b.left.deep_copy()),
                    operator: b.operator.clone(),
                    right: Box::new(b.right.deep_copy()),
                },
            ),
            Expression::FunctionCall(c) => {
                assert(decreases_to!(*self => (*self)->FunctionCall_0));
                assert(decreases_to!((*self)->FunctionCall_0 => (*self)->FunctionCall_0.arguments));
                Expression::FunctionCall(
                    FunctionCallExpression { name: c.name.clone(), arguments: copy_exprs(&c.arguments) },
                )
            },
            Expression::Assignment(a) => Expression::Assignment(
                AssignmentExpression { name: a.name.clone(), value: Box::new(a.value.deep_copy()) },
            ),
        }
    }
}

/// Deep copy of a list of expressions.
pub fn copy_exprs(v: &Vec<Expression>) -> (r: Vec<Expression>)
    ensures
        exprs_v(r@) == exprs_v(v@),
    decreases *v,
{
    let mut out: Vec<Expression> = Vec::new();
    let mut i: usize = 0;
    while i < v.len()
        invariant
            0 <= i <= v@.len(),
            out@.len() == i,
            exprs_v(out@) == exprs_v(v@.subrange(0, i as int)),
        decreases v@.len() - i,
    {
        assert(decreases_to!(*v => v@));
        let c = v[i].deep_copy();
        proof {
            lemma_exprs_v_push(out@, c);
            assert(v@.subrange(0, i + 1).subrange(0, i as int) =~= v@.subrange(0, i as int));
        }
        out.push(c);
        i = i + 1;
    }
    assert(v@.subrange(0, v@.len() as int) =~= v@);
    out
}

impl Statement {
    /// A deep copy with the same view.
    pub fn deep_copy(&self) -> (r: Statement)
        ensures
            stmt_v(r) == stmt_v(*self),
        decreases *self,
    {
        match self {
            Statement::Let(l) => Statement::Let(
                LetStatement { name: l.name.clone(), value: l.value.deep_copy() },
            ),
            Statement::Assignment(a) => Statement::Assignment(
                AssignmentStatement { name: a.name.clone(), value: a.value.deep_copy() },
            ),
            Statement::If(i) => {
                assert(decreases_to!(*self => (*self)->If_0));
                assert(decreases_to!((*self)->If_0 => (*self)->If_0.consequence));
                let alternative = match &i.alternative {
                    Some(alt) => {
                        assert(decreases_to!((*self)->If_0 => (*self)->If_0.alternative));
                        assert(decreases_to!((*self)->If_0.alternative => (*self)->If_0.alternative->Some_0));
                        Some(copy_stmts(alt))
                    },
                    None => None,
                };
                Statement::If(
                    IfStatement {
                        condition: i.condition.deep_copy(),
                        consequence: copy_stmts(&i.consequence),
                        alternative,
                    },
                )
            },
            Statement::While(w) => {
                assert(decreases_to!(*self => (*self)->While_0));
                assert(decreases_to!((*self)->While_0 => (*self)->While_0.body));
                Statement::While(
                    WhileStatement { condition: w.condition.deep_copy(), body: copy_stmts(&w.body) },
                )
            },
            Statement::For(f) => {
                assert(decreases_to!(*self => (*self)->For_0));
                assert(decreases_to!((*self)->For_0 => (*self)->For_0.body));
                Statement::For(
                    ForStatement {
                        item: f.item.clone(),
                        list: f.list.deep_copy(),
                        body: copy_stmts(&f.body),
                    },
                )
            },
            Statement::Block(b) => {
                assert(decreases_to!(*self => (*self)->Block_0));
                Statement::Block(copy_stmts(b))
            },
            Statement::Return(r) => Statement::Return(
                ReturnStatement {
                    value: match &r.value {
                        Some(v) => Some(v.deep_copy()),
                        None => None,
                    },
                },
            ),
            Statement::Write(w) => Statement::Write(WriteStatement { value: w.value.deep_copy() }),
            Statement::Expression(e) => Statement::Expression(e.deep_copy()),
            Statement::FunctionDeclaration(f) => {
                assert(decreases_to!(*self => (*self)->FunctionDeclaration_0));
                assert(decreases_to!((*self)->FunctionDeclaration_0 => (*self)->FunctionDeclaration_0.body));
                Statement::FunctionDeclaration(
                    FunctionDeclaration {
                        name: f.name.clone(),
                        params: copy_names(&f.params),
                        body: copy_stmts(&f.body),
                    },
                )
            },
        }
    }
}

impl FunctionDeclaration {
    /// A deep copy with the same view.
    pub fn deep_copy_decl(&self) -> (r: FunctionDeclaration)
        ensures
            r.name@ == self.name@,
            names_v(r.params@) == names_v(self.params@),
            stmts_v(r.body@) == stmts_v(self.body@),
    {
        FunctionDeclaration {
            name: self.name.clone(),
            params: copy_names(&self.params),
            body: copy_stmts(&self.body),
        }
    }
}

/// Deep copy of a list of statements.
pub fn copy_stmts(v: &Vec<Statement>) -> (r: Vec<Statement>)
    ensures
        stmts_v(r@) == stmts_v(v@),
    decreases *v,
{
    let mut out: Vec<Statement> = Vec::new();
    let mut i: usize = 0;
    while i < v.len()
        invariant
            0 <= i <= v@.len(),
            out@.len() == i,
            stmts_v(out@) == stmts_v(v@.subrange(0, i as int)),
        decreases v@.len() - i,
    {
        assert(decreases_to!(*v => v@));
        let c = v[i].deep_copy();
        proof {
            lemma_stmts_v_push(out@, c);
            assert(v@.subrange(0, i + 1).subrange(0, i as int) =~= v@.subrange(0, i as int));
        }
        out.push(c);
        i = i + 1;
    }
    assert(v@.subrange(0, v@.len() as int) =~= v@);
    out
}

/// Equality of the views of two name lists.
pub fn names_same(a: &Vec<String>, b: &Vec<String>) -> (r: bool)
    ensures
        r == (names_v(a@) == names_v(b@)),
{
    if a.len() != b.len() {
        assert(names_v(a@).len() != names_v(b@).len());
        return false;
    }
    let mut i: usize = 0;
    while i < a.len()
        invariant
            i <= a@.len(),
            a@.len() == b@.len(),
            forall|j: int| 0 <= j < i ==> a@[j]@ == b@[j]@,
        decreases a@.len() - i,
    {
        if !a[i].eq(&b[i]) {
            assert(names_v(a@)[i as int] != names_v(b@)[i as int]);
            return false;
        }
        i = i + 1;
    }
    assert(names_v(a@) =~= names_v(b@));
    true
}

fn opt_str_eq(a: &String, b: &String) -> (r: bool)
    ensures
        r == (a@ == b@),
{
    a.eq(b)
}

impl Expression {
    /// Equality of views.
    pub fn same(&self, other: &Expression) -> (r: bool)
        ensures
            r == (expr_v(*self) == expr_v(*other)),
        decreases *self,
    {
        match (self, other) {
            (Expression::Integer(a), Expression::Integer(b)) => *a == *b,
            (Expression::String(a), Expression::String(b)) => opt_str_eq(a, b),
            (Expression::Boolean(a), Expression::Boolean(b)) => *a == *b,
            (Expression::Nil, Expression::Nil) => true,
            (Expression::Identifier(a), Expression::Identifier(b)) => opt_str_eq(a, b),
            (Expression::Array(a), Expression::Array(b)) => {
                assert(decreases_to!(*self => (*self)->Array_0));
                exprs_same(a, b)
            },
            (Expression::Unary(a), Expression::Unary(b)) => {
                let o = opt_str_eq(&a.operator, &b.operator);
                let r = a.right.same(&b.right);
                o && r
            },
            (Expression::Binary(a), Expression::Binary(b)) => {
                let o = opt_str_eq(&a.operator, &b.operator);
                let l = a.left.same(&b.left);
                let r = a.right.same(&b.right);
                o && l && r
            },
            (Expression::FunctionCall(a), Expression::FunctionCall(b)) => {
                assert(decreases_to!(*self => (*self)->FunctionCall_0));
                assert(decreases_to!((*self)->FunctionCall_0 => (*self)->FunctionCall_0.arguments));
                let n = opt_str_eq(&a.name, &b.name);
                let r = exprs_same(&a.arguments, &b.arguments);
                n && r
            },
            (Expression::Assignment(a), Expression::Assignment(b)) => {
                let n = opt_str_eq(&a.name, &b.name);
                let r = a.value.same(&b.value);
                n && r
            },
            _ => false,
        }
    }
}

/// Equality of the views of two expression lists.
pub fn exprs_same(a: &Vec<Expression>, b: &Vec<Expression>) -> (r: bool)
    ensures
        r == (exprs_v(a@) == exprs_v(b@)),
    decreases *a,
{
    proof {
        lemma_exprs_v_len(a@);
        lemma_exprs_v_len(b@);
    }
    if a.len() != b.len() {
        return false;
    }
    let mut i: usize = 0;
    while i < a.len()
        invariant
            i <= a@.len(),
            a@.len() == b@.len(),
            exprs_v(a@).len() == a@.len(),
            exprs_v(b@).len() == b@.len(),
            forall|j: int| 0 <= j < i ==> exprs_v(a@)[j] == exprs_v(b@)[j],
        decreases a@.len() - i,
    {
        assert(decreases_to!(*a => a@));
        let same = a[i].same(&b[i]);
        proof {
            lemma_exprs_v_index(a@, i as int);
            lemma_exprs_v_index(b@, i as int);
        }
        if !same {
            return false;
        }
        i = i + 1;
    }
    assert(exprs_v(a@) =~= exprs_v(b@));
    true
}

impl Statement {
    /// Equality of views.
    pub fn same(&self, other: &Statement) -> (r: bool)
        ensures
            r == (stmt_v(*self) == stmt_v(*other)),
        decreases *self,
    {
        match (self, other) {
            (Statement::Let(a), Statement::Let(b)) => {
                let n = opt_str_eq(&a.name, &b.name);
                let v = a.value.same(&b.value);
                n && v
            },
            (Statement::Assignment(a), Statement::Assignment(b)) => {
                let n = opt_str_eq(&a.name, &b.name);
                let v = a.value.same(&b.value);
                n && v
            },
            (Statement::If(a), Statement::If(b)) => {
                assert(decreases_to!(*self => (*self)->If_0));
                assert(decreases_to!((*self)->If_0 => (*self)->If_0.consequence));
                let c = a.condition.same(&b.condition);
                let t = stmts_same(&a.consequence, &b.consequence);
                let e = match (&a.alternative, &b.alternative) {
                    (Some(x), Some(y)) => {
                        assert(decreases_to!((*self)->If_0 => (*self)->If_0.alternative));
                        assert(decreases_to!((*self)->If_0.alternative => (*self)->If_0.alternative->Some_0));
                        stmts_same(x, y)
                    },
                    (None, None) => true,
                    _ => false,
                };
                c && t && e
            },
            (Statement::While(a), Statement::While(b)) => {
                assert(decreases_to!(*self => (*self)->While_0));
                assert(decreases_to!((*self)->While_0 => (*self)->While_0.body));
                let c = a.condition.same(&b.condition);
                let t = stmts_same(&a.body, &b.body);
                c && t
            },
            (Statement::For(a), Statement::For(b)) => {
                assert(decreases_to!(*self => (*self)->For_0));
                assert(decreases_to!((*self)->For_0 => (*self)->For_0.body));
                let n = opt_str_eq(&a.item, &b.item);
                let l = a.list.same(&b.list);
                let t = stmts_same(&a.body, &b.body);
                n && l && t
            },
            (Statement::Block(a), Statement::Block(b)) => {
                assert(decreases_to!(*self => (*self)->Block_0));
                stmts_same(a, b)
            },
            (Statement::Return(a), Statement::Return(b)) => match (&a.value, &b.value) {
                (Some(x), Some(y)) => x.same(y),
                (None, None) => true,
                _ => false,
            },
            (Statement::Write(a), Statement::Write(b)) => a.value.same(&b.value),
            (Statement::Expression(a), Statement::Expression(b)) => a.same(b),
            (Statement::FunctionDeclaration(a), Statement::FunctionDeclaration(b)) => {
                assert(decreases_to!(*self => (*self)->FunctionDeclaration_0));
                assert(decreases_to!((*self)->FunctionDeclaration_0 => (*self)->FunctionDeclaration_0.body));
                let n = opt_str_eq(&a.name, &b.name);
                let p = names_same(&a.params, &b.params);
                let t = stmts_same(&a.body, &b.body);
                n && p && t
            },
            _ => false,
        }
    }
}

/// Equality of the views of two statement lists.
pub fn stmts_same(a: &Vec<Statement>, b: &Vec<Statement>) -> (r: bool)
    ensures
        r == (stmts_v(a@) == stmts_v(b@)),
    decreases *a,
{
    proof {
        lemma_stmts_v_len(a@);
        lemma_stmts_v_len(b@);
    }
    if a.len() != b.len() {
        return false;
    }
    let mut i: usize = 0;
    while i < a.len()
        invariant
            i <= a@.len(),
            a@.len() == b@.len(),
            stmts_v(a@).len() == a@.len(),
            stmts_v(b@).len() == b@.len(),
            forall|j: int| 0 <= j < i ==> stmts_v(a@)[j] == stmts_v(b@)[j],
        decreases a@.len() - i,
    {
        assert(decreases_to!(*a => a@));
        let same = a[i].same(&b[i]);
        proof {
            lemma_stmts_v_index(a@, i as int);
            lemma_stmts_v_index(b@, i as int);
        }
        if !same {
            return false;
        }
        i = i + 1;
    }
    assert(stmts_v(a@) =~= stmts_v(b@));
    true
}

impl Clone for Expression {
    fn clone(&self) -> Self {
        self.deep_copy()
    }
}

impl Clone for Statement {
    fn clone(&self) -> Self {
        self.deep_copy()
    }
}

impl Clone for FunctionDeclaration {
    fn clone(&self) -> Self {
        self.deep_copy_decl()
    }
}

impl Clone for Program {
    fn clone(&self) -> Self {
        Program { statements: copy_stmts(&self.statements) }
    }
}

} // verus!
