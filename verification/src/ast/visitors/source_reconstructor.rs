//! The source reconstructor: a visitor that writes a tree out as source
//! text.

use vstd::prelude::*;
use vstd::string::StringExecFns;

use crate::ast::expression::{
    unary_symbol, unary_text, BinaryExpression, Boolean, CallExpression, Expression,
    FunctionExpression, GlobalSymbol, Identifier, IndexOp, Nil, Number, ShadowExpression, Str,
    TableExpression, UnaryExpression,
};
use crate::ast::identifier::{can_identify_spec, escaped, IdentifierString};
use crate::ast::statement::{StatAssign, StatBlock, StatReturn, Statement};
use crate::ast::view::{exprs_view, pairs_view, stmts_view, ExprView, StmtView};

verus! {

/// How source is laid out.
#[derive(Debug, Clone)]
pub struct SourceReconstructorSettings {
    /// Whether a semicolon ends every statement. Statements on one line are
    /// separated by a semicolon in any case.
    pub use_semicolons: bool,
    /// Whether a newline follows every statement. Without it all the code
    /// stands on one line.
    pub use_newline: bool,
    /// Whether a level of indentation is one tab.
    pub use_tabs: bool,
    /// The spaces of one level of indentation when tabs are not used.
    pub space_count: usize,
    /// The comment line put before the output, if any.
    pub custom_header: Option<String>,
}

/// The header that is written unless another is chosen.
pub open spec fn default_header() -> Seq<char> {
    "Decompiled with LUNIR (https://github.com/lunir-project/lunir)"@
}

impl Default for SourceReconstructorSettings {
    fn default() -> (r: Self)
        ensures
            r.use_semicolons,
            r.use_newline,
            !r.use_tabs,
            r.space_count == 4,
            r.custom_header matches Some(h) && h@ == default_header(),
    {
        Self {
            space_count: 4,
            use_semicolons: true,
            use_newline: true,
            use_tabs: false,
            custom_header: Some(
                String::from_str("Decompiled with LUNIR (https://github.com/lunir-project/lunir)"),
            ),
        }
    }
}

/// Why settings could not be built.
#[derive(Debug, Clone, PartialEq)]
pub enum SourceReconstructorSettingsBuilderError {
    /// A field was left without a value.
    UninitializedField(String),
    /// The values do not go together.
    ValidationError(String),
}

/// A builder of settings: every option that is not set keeps its default.
#[derive(Debug, Clone, Default)]
pub struct SourceReconstructorSettingsBuilder {
    pub use_semicolons: Option<bool>,
    pub use_newline: Option<bool>,
    pub use_tabs: Option<bool>,
    pub space_count: Option<usize>,
    pub custom_header: Option<Option<String>>,
}

impl SourceReconstructorSettingsBuilder {
    /// A builder with no option set.
    pub fn new() -> (r: Self)
        ensures
            r.use_semicolons is None,
            r.use_newline is None,
            r.use_tabs is None,
            r.space_count is None,
            r.custom_header is None,
    {
        SourceReconstructorSettingsBuilder {
            use_semicolons: None,
            use_newline: None,
            use_tabs: None,
            space_count: None,
            custom_header: None,
        }
    }

    /// Sets whether a semicolon ends every statement.
    pub fn use_semicolons(&mut self, value: bool) -> (r: &mut Self)
        ensures
            *r == (SourceReconstructorSettingsBuilder { use_semicolons: Some(value), ..*old(self) }),
            *final(self) == *final(r),
    {
        self.use_semicolons = Some(value);
        self
    }

    /// Sets whether a newline follows every statement.
    pub fn use_newline(&mut self, value: bool) -> (r: &mut Self)
        ensures
            *r == (SourceReconstructorSettingsBuilder { use_newline: Some(value), ..*old(self) }),
            *final(self) == *final(r),
    {
        self.use_newline = Some(value);
        self
    }

    /// Sets whether a level of indentation is one tab.
    pub fn use_tabs(&mut self, value: bool) -> (r: &mut Self)
        ensures
            *r == (SourceReconstructorSettingsBuilder { use_tabs: Some(value), ..*old(self) }),
            *final(self) == *final(r),
    {
        self.use_tabs = Some(value);
        self
    }

    /// Sets the spaces of one level of indentation.
    pub fn space_count(&mut self, value: usize) -> (r: &mut Self)
        ensures
            *r == (SourceReconstructorSettingsBuilder { space_count: Some(value), ..*old(self) }),
            *final(self) == *final(r),
    {
        self.space_count = Some(value);
        self
    }

    /// Sets the comment line put before the output, or that there is none.
    pub fn custom_header(&mut self, value: Option<String>) -> (r: &mut Self)
        ensures
            *r == (SourceReconstructorSettingsBuilder { custom_header: Some(value), ..*old(self) }),
            *final(self) == *final(r),
    {
        self.custom_header = Some(value);
        self
    }

    /// The settings: each option as it was set, or its default. Building
    /// always succeeds.
    pub fn build(&self) -> (r: Result<SourceReconstructorSettings, SourceReconstructorSettingsBuilderError>)
        ensures
            r matches Ok(s) && {
                &&& s.use_semicolons == (match self.use_semicolons {
                    Some(v) => v,
                    None => true,
                })
                &&& s.use_newline == (match self.use_newline {
                    Some(v) => v,
                    None => true,
                })
                &&& s.use_tabs == (match self.use_tabs {
                    Some(v) => v,
                    None => false,
                })
                &&& s.space_count == (match self.space_count {
                    Some(v) => v,
                    None => 4,
                })
                &&& match self.custom_header {
                    Some(Some(h)) => s.custom_header matches Some(t) && t@ == h@,
                    Some(None) => s.custom_header is None,
                    None => s.custom_header matches Some(t) && t@ == default_header(),
                }
            },
    {
        let defaults = SourceReconstructorSettings::default();
        Ok(
            SourceReconstructorSettings {
                use_semicolons: match self.use_semicolons {
                    Some(v) => v,
                    None => defaults.use_semicolons,
                },
                use_newline: match self.use_newline {
                    Some(v) => v,
                    None => defaults.use_newline,
                },
                use_tabs: match self.use_tabs {
                    Some(v) => v,
                    None => defaults.use_tabs,
                },
                space_count: match self.space_count {
                    Some(v) => v,
                    None => defaults.space_count,
                },
                custom_header: match &self.custom_header {
                    Some(Some(h)) => Some(h.clone()),
                    Some(None) => None,
                    None => defaults.custom_header,
                },
            },
        )
    }
}

/// What follows every statement: a semicolon if asked for and a newline, or
/// a semicolon alone when the code stands on one line.
pub open spec fn statement_suffix(use_semicolons: bool, use_newline: bool) -> Seq<char> {
    if use_newline {
        if use_semicolons {
            seq![';', '\n']
        } else {
            seq!['\n']
        }
    } else {
        seq![';']
    }
}

/// The text of an expression. `suffix` is what follows every statement,
/// which matters where a function holds statements.
pub open spec fn render_expr(suffix: Seq<char>, e: ExprView) -> Seq<char>
    decreases e,
{
    match e {
        ExprView::Nil => "nil"@,
        ExprView::Boolean(b) => if b {
            "true"@
        } else {
            "false"@
        },
        ExprView::Number(text) => text,
        ExprView::String(s) => seq!['"'].add(escaped(s)).push('"'),
        ExprView::GlobalSymbol(name) => name,
        ExprView::Identifier(name) => name,
        ExprView::UnaryOp { kind, value } => unary_text(kind).add(render_expr(suffix, *value)),
        ExprView::BinaryOp { kind, left, right } => render_expr(suffix, *left).push(' ').add(
            kind.text(),
        ).push(' ').add(render_expr(suffix, *right)),
        ExprView::IndexOp { table, key } => render_expr(suffix, *table).add(
            match *key {
                ExprView::String(s) => if can_identify_spec(s) {
                    seq!['.'].add(s)
                } else {
                    seq!['[', '"'].add(escaped(s)).push('"').push(']')
                },
                other => seq!['['].add(render_expr(suffix, other)).push(']'),
            },
        ),
        ExprView::Call { function, arguments, is_self } => render_expr(suffix, *function).push(
            '(',
        ).add(render_list(suffix, arguments)).push(')'),
        ExprView::Function { body, has_vararg, parameters, self_arg } => (match self_arg {
            Some(a) => render_expr(suffix, *a),
            None => Seq::empty(),
        }).add(render_each(suffix, parameters)).add(render_stmts(suffix, body)),
        ExprView::TableArray(elements) => render_each(suffix, elements),
        ExprView::TableMap(pairs) => render_pairs(suffix, pairs),
        ExprView::Shadow { value, is_shadowed } => if is_shadowed {
            Seq::empty()
        } else {
            render_expr(suffix, *value)
        },
    }
}

/// The texts of expressions, separated by a comma and a space.
pub open spec fn render_list(suffix: Seq<char>, es: Seq<ExprView>) -> Seq<char>
    decreases es,
{
    if es.len() == 0 {
        Seq::empty()
    } else if es.len() == 1 {
        render_expr(suffix, es[0])
    } else {
        render_list(suffix, es.drop_last()).push(',').push(' ').add(render_expr(suffix, es.last()))
    }
}

/// The texts of expressions, one after the other.
pub open spec fn render_each(suffix: Seq<char>, es: Seq<ExprView>) -> Seq<char>
    decreases es,
{
    if es.len() == 0 {
        Seq::empty()
    } else {
        render_each(suffix, es.drop_last()).add(render_expr(suffix, es.last()))
    }
}

/// The texts of pairs, key then value, one after the other.
pub open spec fn render_pairs(suffix: Seq<char>, ps: Seq<(ExprView, ExprView)>) -> Seq<char>
    decreases ps,
{
    if ps.len() == 0 {
        Seq::empty()
    } else {
        render_pairs(suffix, ps.drop_last()).add(render_expr(suffix, ps.last().0)).add(
            render_expr(suffix, ps.last().1),
        )
    }
}

/// The text of what a statement holds, without what follows it.
pub open spec fn render_stmt_body(suffix: Seq<char>, s: StmtView) -> Seq<char>
    decreases s, 0nat,
{
    match s {
        StmtView::Block(statements) => render_stmts(suffix, statements),
        StmtView::Expr(e) => render_expr(suffix, e),
        StmtView::Return(results) => "return "@.add(render_list(suffix, results)),
        StmtView::Assign { target, value } => render_expr(suffix, target).add(" = "@).add(
            render_expr(suffix, value),
        ),
    }
}

/// The text of a statement: what it holds and then what follows every
/// statement.
pub open spec fn render_stmt(suffix: Seq<char>, s: StmtView) -> Seq<char>
    decreases s, 1nat,
{
    render_stmt_body(suffix, s).add(suffix)
}

/// The texts of statements, one after the other.
pub open spec fn render_stmts(suffix: Seq<char>, ss: Seq<StmtView>) -> Seq<char>
    decreases ss,
{
    if ss.len() == 0 {
        Seq::empty()
    } else {
        render_stmts(suffix, ss.drop_last()).add(render_stmt(suffix, ss.last()))
    }
}

/// The text of string literals in double quotes, separated by a comma and
/// a space.
pub open spec fn quoted_list(args: Seq<Seq<char>>) -> Seq<char>
    decreases args.len(),
{
    if args.len() == 0 {
        Seq::empty()
    } else if args.len() == 1 {
        seq!['"'].add(escaped(args[0])).push('"')
    } else {
        quoted_list(args.drop_last()).push(',').push(' ').add(
            seq!['"'].add(escaped(args.last())).push('"'),
        )
    }
}

/// String literals as expressions.
pub open spec fn string_literals(args: Seq<Seq<char>>) -> Seq<ExprView> {
    Seq::new(args.len(), |i: int| ExprView::String(args[i]))
}

/// A list of string literals is written as the literals in double quotes,
/// separated by a comma and a space.
pub proof fn lemma_render_string_list(suffix: Seq<char>, args: Seq<Seq<char>>)
    ensures
        render_list(suffix, string_literals(args)) == quoted_list(args),
    decreases args.len(),
{
    let views = string_literals(args);
    if args.len() >= 2 {
        lemma_render_string_list(suffix, args.drop_last());
        assert(views.drop_last() =~= string_literals(args.drop_last()));
        assert(render_expr(suffix, views.last()) == seq!['"'].add(escaped(args.last())).push('"'));
    } else if args.len() == 1 {
        assert(render_expr(suffix, views[0]) == seq!['"'].add(escaped(args[0])).push('"'));
    }
}

/// A call of a global on string literals is written as the name of the
/// global and, in parentheses, the literals in double quotes, separated by
/// a comma and a space.
pub proof fn lemma_render_simple_call(suffix: Seq<char>, name: Seq<char>, args: Seq<Seq<char>>, is_self: bool)
    ensures
        render_expr(
            suffix,
            ExprView::Call {
                function: Box::new(ExprView::GlobalSymbol(name)),
                arguments: string_literals(args),
                is_self,
            },
        ) == name.push('(').add(quoted_list(args)).push(')'),
{
    lemma_render_string_list(suffix, args);
    assert(render_expr(suffix, ExprView::GlobalSymbol(name)) == name);
}

/// The same character a number of times.
pub open spec fn repeated(c: char, count: nat) -> Seq<char> {
    Seq::new(count, |i: int| c)
}

/// The indentation of a level: one tab for every level, or the spaces of
/// one level for every level.
pub open spec fn indentation(use_tabs: bool, space_count: nat, level: nat) -> Seq<char> {
    if use_tabs {
        repeated('\t', level)
    } else {
        repeated(' ', level * space_count)
    }
}

/// The text with the statement that ends it closed: where semicolons are
/// used and the text ends neither in a semicolon nor in a newline, a
/// semicolon is added.
pub open spec fn closed_text(use_semicolons: bool, text: Seq<char>) -> Seq<char> {
    if use_semicolons && text.len() > 0 && text.last() != ';' && text.last() != '\n' {
        text.push(';')
    } else {
        text
    }
}

/// The final output: the header as a comment line, if there is one, and
/// then the text with its last statement closed.
pub open spec fn finished_text(header: Option<Seq<char>>, use_semicolons: bool, text: Seq<char>) -> Seq<char> {
    match header {
        Some(h) => "// "@.add(h).push('\n').add(closed_text(use_semicolons, text)),
        None => closed_text(use_semicolons, text),
    }
}

/// A visitor that writes the nodes it visits into a buffer, as source text.
#[derive(Debug, Clone)]
pub struct SourceReconstructor {
    indents: usize,
    source: String,
    settings: SourceReconstructorSettings,
}

impl Default for SourceReconstructor {
    fn default() -> (r: Self)
        ensures
            r.text() == Seq::<char>::empty(),
            r.indents() == 0,
            r.settings().use_semicolons,
            r.settings().use_newline,
            !r.settings().use_tabs,
            r.settings().space_count == 4,
            r.settings().custom_header matches Some(h) && h@ == default_header(),
    {
        Self { indents: 0, source: String::new(), settings: SourceReconstructorSettings::default() }
    }
}

impl SourceReconstructor {
    /// The text written so far.
    pub closed spec fn text(&self) -> Seq<char> {
        self.source@
    }

    /// The settings of the reconstructor.
    pub closed spec fn settings(&self) -> SourceReconstructorSettings {
        self.settings
    }

    /// The level of indentation.
    pub closed spec fn indents(&self) -> nat {
        self.indents as nat
    }

    /// What follows every statement.
    pub open spec fn suffix(&self) -> Seq<char> {
        statement_suffix(self.settings().use_semicolons, self.settings().use_newline)
    }

    /// Whether the reconstructor is `before` with `text` written after what
    /// it held.
    pub open spec fn wrote(&self, before: &SourceReconstructor, text: Seq<char>) -> bool {
        &&& self.text() == before.text().add(text)
        &&& self.settings() == before.settings()
        &&& self.indents() == before.indents()
    }

    /// A reconstructor with the given settings and nothing written.
    pub fn with_settings(settings: SourceReconstructorSettings) -> (r: Self)
        ensures
            r.text() == Seq::<char>::empty(),
            r.settings() == settings,
            r.indents() == 0,
    {
        Self { indents: 0, source: String::new(), settings }
    }

    /// Sets the level of indentation.
    pub fn set_indents(&mut self, level: usize)
        ensures
            final(self).text() == old(self).text(),
            final(self).settings() == old(self).settings(),
            final(self).indents() == level,
    {
        self.indents = level;
    }

    /// Writes the indentation of the present level, which is not zero.
    pub fn indent(&mut self)
        requires
            old(self).indents() > 0,
        ensures
            final(self).wrote(
                old(self),
                indentation(
                    old(self).settings().use_tabs,
                    old(self).settings().space_count as nat,
                    old(self).indents(),
                ),
            ),
    {
        let ghost width = self.settings.space_count as nat;
        let mut level: usize = 0;
        assert(self.source@ =~= old(self).source@.add(repeated(' ', 0)));
        assert(self.source@ =~= old(self).source@.add(repeated('\t', 0)));
        while level < self.indents
            invariant
                level <= self.indents,
                self.settings == old(self).settings,
                self.indents == old(self).indents,
                width == self.settings.space_count,
                self.settings.use_tabs ==> self.source@ == old(self).source@.add(
                    repeated('\t', level as nat),
                ),
                !self.settings.use_tabs ==> self.source@ == old(self).source@.add(
                    repeated(' ', level as nat * width),
                ),
            decreases self.indents - level,
        {
            if self.settings.use_tabs {
                self.source.push('\t');
                assert(self.source@ =~= old(self).source@.add(repeated('\t', (level + 1) as nat)));
            } else {
                let mut i: usize = 0;
                let ghost base = level as nat * width;
                while i < self.settings.space_count
                    invariant
                        i <= self.settings.space_count,
                        self.settings == old(self).settings,
                        self.indents == old(self).indents,
                        width == self.settings.space_count,
                        base == level as nat * width,
                        !self.settings.use_tabs,
                        self.source@ == old(self).source@.add(repeated(' ', base + i as nat)),
                    decreases self.settings.space_count - i,
                {
                    self.source.push(' ');
                    assert(self.source@ =~= old(self).source@.add(
                        repeated(' ', base + (i + 1) as nat),
                    ));
                    i += 1;
                }
                assert(base + width == (level + 1) as nat * width) by (nonlinear_arith)
                    requires
                        base == level as nat * width,
                ;
            }
            level += 1;
        }
    }

    /// The final output: the header as a comment line, if the settings have
    /// one, and the text written, its last statement closed.
    pub fn source(self) -> (r: String)
        ensures
            r@ == finished_text(
                match self.settings().custom_header {
                    Some(h) => Some(h@),
                    None => None,
                },
                self.settings().use_semicolons,
                self.text(),
            ),
    {
        let mut last: Option<char> = None;
        for c in it: self.source.as_str().chars()
            invariant
                it.seq() == self.source@,
                last == (if it.index() == 0 {
                    None::<char>
                } else {
                    Some(self.source@[it.index() - 1])
                }),
        {
            last = Some(c);
        }
        let open = match last {
            Some(c) => c != ';' && c != '\n',
            None => false,
        };
        let mut out = String::new();
        match &self.settings.custom_header {
            Some(h) => {
                out.append("// ");
                out.append(h.as_str());
                out.push('\n');
            },
            None => {},
        }
        let ghost head = out@;
        out.append(self.source.as_str());
        if self.settings.use_semicolons && open {
            out.push(';');
        }
        assert(out@ =~= head.add(closed_text(self.settings.use_semicolons, self.source@)));
        assert(Seq::<char>::empty().add(closed_text(self.settings.use_semicolons, self.source@))
            =~= closed_text(self.settings.use_semicolons, self.source@));
        out
    }

    /// Writes a boolean literal.
    pub fn visit_bool(&mut self, node: &Boolean)
        ensures
            final(self).wrote(old(self), render_expr(old(self).suffix(), ExprView::Boolean(node.0))),
    {
        if node.0 {
            self.source.append("true");
        } else {
            self.source.append("false");
        }
    }

    /// Writes a string literal in double quotes, its characters escaped.
    pub fn visit_string(&mut self, node: &Str)
        ensures
            final(self).wrote(old(self), render_expr(old(self).suffix(), ExprView::String(node.0@))),
    {
        self.source.push('"');
        let inner = node.0.sanitize_special();
        self.source.append(inner.as_str());
        self.source.push('"');
        assert(self.source@ =~= old(self).source@.add(seq!['"'].add(escaped(node.0@)).push('"')));
    }

    /// Writes a numeric literal.
    pub fn visit_number(&mut self, node: &Number)
        ensures
            final(self).wrote(old(self), render_expr(old(self).suffix(), ExprView::Number(node.0@))),
    {
        self.source.append(node.0.as_str());
    }

    /// Writes `nil`.
    pub fn visit_nil(&mut self, node: &Nil)
        ensures
            final(self).wrote(old(self), render_expr(old(self).suffix(), ExprView::Nil)),
    {
        self.source.append("nil");
    }

    /// Writes the name of a local.
    pub fn visit_identifier(&mut self, node: &Identifier)
        ensures
            final(self).wrote(old(self), render_expr(old(self).suffix(), ExprView::Identifier(node.0@))),
    {
        self.source.append(node.0.as_str());
    }

    /// Writes the name of a global.
    pub fn visit_global_symbol(&mut self, node: &GlobalSymbol)
        ensures
            final(self).wrote(
                old(self),
                render_expr(old(self).suffix(), ExprView::GlobalSymbol(node.0@)),
            ),
    {
        self.source.append(node.0.as_str());
    }

    /// Writes an expression.
    pub fn visit_expr(&mut self, node: &Expression)
        ensures
            final(self).wrote(old(self), render_expr(old(self).suffix(), node@)),
        decreases node,
    {
        match node {
            Expression::BinaryOp(binary) => self.visit_binary(binary),
            Expression::Boolean(b) => self.visit_bool(b),
            Expression::Call(call) => self.visit_call(call),
            Expression::Function(func) => self.visit_function(func),
            Expression::GlobalSymbol(ident) => self.visit_global_symbol(ident),
            Expression::Identifier(ident) => self.visit_identifier(ident),
            Expression::IndexOp(index) => self.visit_index_op(index),
            Expression::Nil(n) => self.visit_nil(n),
            Expression::Number(n) => self.visit_number(n),
            Expression::String(s) => self.visit_string(s),
            Expression::Table(table) => self.visit_table(table),
            Expression::UnaryOp(unary) => self.visit_unary(unary),
            Expression::Shadow(shadow) => self.visit_shadowed(shadow),
        }
    }

    /// Writes a shadowed value: nothing while it is shadowed, else the
    /// value.
    pub fn visit_shadowed(&mut self, node: &ShadowExpression)
        ensures
            final(self).wrote(old(self), render_expr(old(self).suffix(), node@)),
        decreases node,
    {
        if !node.is_shadowed {
            self.visit_expr(&node.value);
        } else {
            assert(self.source@ =~= old(self).source@.add(Seq::empty()));
        }
    }

    /// Writes a unary operation: the operator and then the operand.
    pub fn visit_unary(&mut self, node: &UnaryExpression)
        ensures
            final(self).wrote(old(self), render_expr(old(self).suffix(), node@)),
        decreases node,
    {
        self.source.append(unary_symbol(node.kind));
        self.visit_expr(&node.value);
        assert(self.source@ =~= old(self).source@.add(render_expr(old(self).suffix(), node@)));
    }

    /// Writes a binary operation: both operands with the operator between
    /// them, set off by single spaces.
    pub fn visit_binary(&mut self, node: &BinaryExpression)
        ensures
            final(self).wrote(old(self), render_expr(old(self).suffix(), node@)),
        decreases node,
    {
        self.visit_expr(&node.left);
        self.source.push(' ');
        self.source.append(node.kind.symbol());
        self.source.push(' ');
        self.visit_expr(&node.right);
        assert(self.source@ =~= old(self).source@.add(render_expr(old(self).suffix(), node@)));
    }

    /// Writes an index: `table.key` when the key is a string that can stand
    /// as an identifier, `table["key"]` when it is another string, and
    /// `table[key]` otherwise.
    pub fn visit_index_op(&mut self, node: &IndexOp)
        ensures
            final(self).wrote(old(self), render_expr(old(self).suffix(), node@)),
        decreases node,
    {
        self.visit_expr(&node.table);
        match &node.key {
            Expression::String(s) => {
                if s.0.can_identify() {
                    self.source.push('.');
                    self.source.append(s.0.as_str());
                } else {
                    self.source.push('[');
                    self.source.push('"');
                    let inner = s.0.sanitize_special();
                    self.source.append(inner.as_str());
                    self.source.push('"');
                    self.source.push(']');
                }
            },
            _ => {
                self.source.push('[');
                self.visit_expr(&node.key);
                self.source.push(']');
            },
        }
        assert(self.source@ =~= old(self).source@.add(render_expr(old(self).suffix(), node@)));
    }

    /// Writes expressions separated by a comma and a space.
    #[verifier::loop_isolation(false)]
    fn visit_list(&mut self, nodes: &Vec<Expression>)
        ensures
            final(self).wrote(old(self), render_list(old(self).suffix(), exprs_view(nodes@))),
        decreases nodes,
    {
        let ghost views = exprs_view(nodes@);
        let ghost suffix = self.suffix();
        let mut i: usize = 0;
        assert(views.take(0) =~= Seq::<ExprView>::empty());
        assert(self.source@ =~= old(self).source@.add(render_list(suffix, views.take(0))));
        while i < nodes.len()
            invariant
                i <= nodes.len(),
                self.wrote(old(self), render_list(suffix, views.take(i as int))),
            decreases nodes.len() - i,
        {
            let ghost before = self.source@;
            if i > 0 {
                self.source.push(',');
                self.source.push(' ');
            }
            self.visit_expr(&nodes[i]);
            proof {
                assert(views.take(i + 1).drop_last() =~= views.take(i as int));
                assert(views.take(i + 1).last() == nodes@[i as int]@);
                if i == 0 {
                    assert(views.take(1)[0] == nodes@[0]@);
                }
                assert(self.source@ =~= old(self).source@.add(
                    render_list(suffix, views.take(i + 1)),
                ));
            }
            i += 1;
        }
        assert(views.take(nodes.len() as int) =~= views);
    }

    /// Writes expressions one after the other.
    #[verifier::loop_isolation(false)]
    fn visit_each(&mut self, nodes: &Vec<Expression>)
        ensures
            final(self).wrote(old(self), render_each(old(self).suffix(), exprs_view(nodes@))),
        decreases nodes,
    {
        let ghost views = exprs_view(nodes@);
        let ghost suffix = self.suffix();
        let mut i: usize = 0;
        assert(views.take(0) =~= Seq::<ExprView>::empty());
        assert(self.source@ =~= old(self).source@.add(render_each(suffix, views.take(0))));
        while i < nodes.len()
            invariant
                i <= nodes.len(),
                self.wrote(old(self), render_each(suffix, views.take(i as int))),
            decreases nodes.len() - i,
        {
            self.visit_expr(&nodes[i]);
            proof {
                assert(views.take(i + 1).drop_last() =~= views.take(i as int));
                assert(views.take(i + 1).last() == nodes@[i as int]@);
                assert(self.source@ =~= old(self).source@.add(
                    render_each(suffix, views.take(i + 1)),
                ));
            }
            i += 1;
        }
        assert(views.take(nodes.len() as int) =~= views);
    }

    /// Writes a table: its elements in their order, or its pairs in their
    /// order, each key before its value.
    #[verifier::loop_isolation(false)]
    pub fn visit_table(&mut self, node: &TableExpression)
        ensures
            final(self).wrote(old(self), render_expr(old(self).suffix(), node@)),
        decreases node,
    {
        match node {
            TableExpression::Array(array) => {
                self.visit_each(array);
            },
            TableExpression::HashMap(map) => {
                let ghost views = pairs_view(map@);
                let ghost suffix = self.suffix();
                let mut i: usize = 0;
                assert(views.take(0) =~= Seq::<(ExprView, ExprView)>::empty());
                assert(self.source@ =~= old(self).source@.add(render_pairs(suffix, views.take(0))));
                while i < map.len()
                    invariant
                        i <= map.len(),
                        self.wrote(old(self), render_pairs(suffix, views.take(i as int))),
                    decreases map.len() - i,
                {
                    self.visit_expr(&map[i].0);
                    self.visit_expr(&map[i].1);
                    proof {
                        assert(views.take(i + 1).drop_last() =~= views.take(i as int));
                        assert(views.take(i + 1).last() == (map@[i as int].0@, map@[i as int].1@));
                        assert(self.source@ =~= old(self).source@.add(
                            render_pairs(suffix, views.take(i + 1)),
                        ));
                    }
                    i += 1;
                }
                assert(views.take(map.len() as int) =~= views);
            },
        }
    }

    /// Writes a call: the function and then the arguments in parentheses,
    /// separated by a comma and a space.
    pub fn visit_call(&mut self, node: &CallExpression)
        ensures
            final(self).wrote(old(self), render_expr(old(self).suffix(), node@)),
        decreases node,
    {
        self.visit_expr(&node.function);
        self.source.push('(');
        self.visit_list(&node.arguments);
        self.source.push(')');
        assert(self.source@ =~= old(self).source@.add(render_expr(old(self).suffix(), node@)));
    }

    /// Writes a function: the receiver, if it has one, the parameters and
    /// then the statements of the body.
    pub fn visit_function(&mut self, node: &FunctionExpression)
        ensures
            final(self).wrote(old(self), render_expr(old(self).suffix(), node@)),
        decreases node,
    {
        let ghost mid;
        match &node.self_arg {
            Some(a) => {
                self.visit_expr(a);
                proof {
                    mid = render_expr(old(self).suffix(), a@);
                }
            },
            None => {
                proof {
                    mid = Seq::empty();
                }
                assert(self.source@ =~= old(self).source@.add(mid));
            },
        }
        self.visit_each(&node.parameters);
        self.visit_stat_block(&node.body);
        assert(self.source@ =~= old(self).source@.add(render_expr(old(self).suffix(), node@)));
    }

    /// Writes a statement and then what follows every statement.
    pub fn visit_stat(&mut self, node: &Statement)
        ensures
            final(self).wrote(old(self), render_stmt(old(self).suffix(), node@)),
        decreases node,
    {
        match node {
            Statement::StatBlock(block) => self.visit_stat_block(block),
            Statement::StatExpr(expr) => self.visit_expr(&expr.value),
            Statement::StatReturn(ret) => self.visit_return(ret),
            Statement::StatAssign(assign) => self.visit_assign(assign),
        }
        if self.settings.use_newline {
            if self.settings.use_semicolons {
                self.source.push(';');
            }
            self.source.push('\n');
        } else {
            self.source.push(';');
        }
        assert(self.source@ =~= old(self).source@.add(render_stmt(old(self).suffix(), node@)));
    }

    /// Writes the statements of a block in their order.
    #[verifier::loop_isolation(false)]
    pub fn visit_stat_block(&mut self, node: &StatBlock)
        ensures
            final(self).wrote(old(self), render_stmts(old(self).suffix(), node@)),
        decreases node,
    {
        let ghost views = stmts_view(node.body@);
        let ghost suffix = self.suffix();
        let mut i: usize = 0;
        assert(views.take(0) =~= Seq::<StmtView>::empty());
        assert(self.source@ =~= old(self).source@.add(render_stmts(suffix, views.take(0))));
        while i < node.body.len()
            invariant
                i <= node.body.len(),
                self.wrote(old(self), render_stmts(suffix, views.take(i as int))),
            decreases node.body.len() - i,
        {
            self.visit_stat(&node.body[i]);
            proof {
                assert(views.take(i + 1).drop_last() =~= views.take(i as int));
                assert(views.take(i + 1).last() == node.body@[i as int]@);
                assert(self.source@ =~= old(self).source@.add(
                    render_stmts(suffix, views.take(i + 1)),
                ));
            }
            i += 1;
        }
        assert(views.take(node.body.len() as int) =~= views);
    }

    /// Writes a return: `return` and the results, separated by a comma and
    /// a space.
    pub fn visit_return(&mut self, node: &StatReturn)
        ensures
            final(self).wrote(old(self), render_stmt_body(old(self).suffix(), node@)),
        decreases node,
    {
        self.source.append("return ");
        self.visit_list(&node.results);
        assert(self.source@ =~= old(self).source@.add(
            render_stmt_body(old(self).suffix(), node@),
        ));
    }

    /// Writes an assignment: the target, an equals sign set off by single
    /// spaces, and the value.
    pub fn visit_assign(&mut self, node: &StatAssign)
        ensures
            final(self).wrote(old(self), render_stmt_body(old(self).suffix(), node@)),
        decreases node,
    {
        self.visit_expr(&node.target);
        self.source.append(" = ");
        self.visit_expr(&node.value);
        assert(self.source@ =~= old(self).source@.add(
            render_stmt_body(old(self).suffix(), node@),
        ));
    }
}

/// Reconstruction is a function of the tree and the settings: two
/// reconstructors that hold the same text under the same settings and then
/// write the same statements hold the same text again, and give the same
/// output.
pub proof fn lemma_reconstruction_is_a_function(
    first_before: SourceReconstructor,
    first_after: SourceReconstructor,
    second_before: SourceReconstructor,
    second_after: SourceReconstructor,
    statements: Seq<StmtView>,
)
    requires
        first_before.text() == second_before.text(),
        first_before.settings().use_semicolons == second_before.settings().use_semicolons,
        first_before.settings().use_newline == second_before.settings().use_newline,
        first_after.wrote(&first_before, render_stmts(first_before.suffix(), statements)),
        second_after.wrote(&second_before, render_stmts(second_before.suffix(), statements)),
    ensures
        first_after.text() == second_after.text(),
        forall|header: Option<Seq<char>>|
            finished_text(header, first_after.settings().use_semicolons, first_after.text())
                == finished_text(header, second_after.settings().use_semicolons, second_after.text()),
{
}

} // verus!
