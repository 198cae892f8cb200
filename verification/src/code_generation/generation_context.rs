//! The emission context: the instructions emitted so far, the tables of
//! names, and the counters from which registers and labels are taken.
use vstd::prelude::*;
use vstd::string::StringExecFns;
use crate::ast::{Type, TypeView};
use crate::code_generation::ir::{Instr, InstrView, instrs_view};
use crate::table::{Table, map_of};

verus! {

/// A constant operand.
#[derive(Clone, Copy, Debug, PartialEq, Eq, Structural)]
pub enum Const {
    /// An integer.
    IConst(i32),
    /// The string constant with this number.
    SConst(i32),
    /// A boolean.
    BConst(bool),
}

/// A name of the emitted code.
#[derive(Clone, Copy, Debug, PartialEq, Eq, Structural)]
pub enum Register {
    /// A virtual register, `%v` and its number.
    Var(i32),
    /// The label of a basic block, `%L` and its number.
    Label(i32),
    /// The label of the block that a function returns from, `%FR` and its
    /// number.
    Exit(i32),
}

/// An operand: a constant or a register.
#[derive(Clone, Copy, Debug, PartialEq, Eq, Structural)]
pub enum Val {
    Const(Const),
    Register(Register),
}

impl Register {
    /// The number of the name.
    pub open spec fn index(self) -> i32 {
        match self {
            Register::Var(x) => x,
            Register::Label(x) => x,
            Register::Exit(x) => x,
        }
    }

    /// The number of the name.
    pub fn unwrap(&self) -> (x: i32)
        ensures
            x == self.index(),
    {
        match *self {
            Register::Var(x) => x,
            Register::Label(x) => x,
            Register::Exit(x) => x,
        }
    }

    /// The name of the same kind with the next number.
    pub fn next(&self) -> (r: Register)
        requires
            self.index() < i32::MAX,
        ensures
            r == match *self {
                Register::Var(x) => Register::Var((x + 1) as i32),
                Register::Label(x) => Register::Label((x + 1) as i32),
                Register::Exit(x) => Register::Exit((x + 1) as i32),
            },
    {
        match *self {
            Register::Var(x) => Register::Var(x + 1),
            Register::Label(x) => Register::Label(x + 1),
            Register::Exit(x) => Register::Exit(x + 1),
        }
    }
}

/// Where the function being emitted returns: the label of its last block,
/// and the register that holds the address of its result, if it has one.
#[derive(Clone, Copy, Debug, PartialEq, Eq, Structural)]
pub struct Exit {
    pub label: Register,
    pub slot: Option<Register>,
}

/// Model of [`CGContext`].
pub struct GenState {
    /// The instructions emitted so far.
    pub output: Seq<InstrView>,
    /// The string constants, each at the index that is its number.
    pub strings: Seq<Seq<char>>,
    /// For each variable in scope the register that holds its address.
    pub vars: Map<Seq<char>, Register>,
    /// For each variable in scope its type, for each function its result
    /// type.
    pub types: Map<Seq<char>, TypeView>,
    /// For each string constant its operand.
    pub consts: Map<Seq<char>, Const>,
    /// The number of the next register.
    pub register: i32,
    /// The number of the next label.
    pub label: i32,
    /// The label of the block opened last.
    pub last_label: Register,
    /// The number of the next string constant.
    pub next_const: i32,
    /// Where the function being emitted returns.
    pub exit: Option<Exit>,
}

/// The types that a table of types stands for.
pub open spec fn types_view(m: Map<Seq<char>, Type>) -> Map<Seq<char>, TypeView> {
    Map::new(|k: Seq<char>| m.contains_key(k), |k: Seq<char>| m[k]@)
}

/// The texts that a vector of strings holds.
pub open spec fn strings_view(v: Seq<String>) -> Seq<Seq<char>> {
    Seq::new(v.len(), |i: int| v[i]@)
}

impl GenState {
    /// The state before anything is emitted.
    pub open spec fn initial() -> GenState {
        GenState {
            output: Seq::empty(),
            strings: Seq::empty(),
            vars: Map::empty(),
            types: Map::empty(),
            consts: Map::empty(),
            register: 0,
            label: 0,
            last_label: Register::Label(0),
            next_const: 0,
            exit: None,
        }
    }

    /// The state after one more instruction.
    pub open spec fn emit(self, instr: InstrView) -> GenState {
        GenState { output: self.output.push(instr), ..self }
    }

    /// The state after a block is opened: its label is emitted and is the
    /// label opened last.
    pub open spec fn open(self, label: Register) -> GenState {
        GenState { output: self.output.push(InstrView::Label(label)), last_label: label, ..self }
    }

    /// The state after a register is taken.
    pub open spec fn take_register(self) -> GenState {
        GenState { register: (self.register + 1) as i32, ..self }
    }

    /// The state after a label is taken.
    pub open spec fn take_label(self) -> GenState {
        GenState { label: (self.label + 1) as i32, ..self }
    }

    /// The state after a variable is bound to a register and a type.
    pub open spec fn bind(self, id: Seq<char>, reg: Register, t: TypeView) -> GenState {
        GenState { vars: self.vars.insert(id, reg), types: self.types.insert(id, t), ..self }
    }

    /// The state after a string is made a constant.
    pub open spec fn intern(self, s: Seq<char>) -> GenState {
        GenState {
            strings: self.strings.push(s),
            consts: self.consts.insert(s, Const::SConst(self.next_const)),
            next_const: (self.next_const + 1) as i32,
            ..self
        }
    }

    /// The state after a scope is left: the variables and types are those
    /// of the state in which the scope was entered.
    pub open spec fn leave(self, entered: GenState) -> GenState {
        GenState { vars: entered.vars, types: entered.types, ..self }
    }
}

/// The variables and types to come back to when a scope is left.
struct Scope {
    vars: Table<Register>,
    types: Table<Type>,
}

impl Scope {
    /// The variables of the scope.
    spec fn vars(&self) -> Map<Seq<char>, Register> {
        self.vars@
    }

    /// The types of the scope.
    spec fn types(&self) -> Map<Seq<char>, TypeView> {
        types_view(self.types@)
    }
}

/// A copy of a table of types.
fn copy_types(table: &Table<Type>) -> (t: Table<Type>)
    ensures
        types_view(t@) == types_view(table@),
{
    let mut t: Table<Type> = Table::new();
    let mut i: usize = 0;
    proof {
        assert(table.entries@.take(0) =~= Seq::<(String, Type)>::empty());
        assert(types_view(t@) =~= types_view(map_of(table.entries@.take(0))));
    }
    while i < table.entries.len()
        invariant
            i <= table.entries.len(),
            types_view(t@) == types_view(map_of(table.entries@.take(i as int))),
        decreases table.entries.len() - i,
    {
        let name = &table.entries[i].0;
        let ghost before = t@;
        let ghost m = map_of(table.entries@.take(i as int));
        let copy = table.entries[i].1.duplicate();
        proof {
            let next = table.entries@.take(i + 1);
            assert(next.drop_last() =~= table.entries@.take(i as int));
            assert(next.last() == table.entries@[i as int]);
        }
        t.insert(name.clone(), copy);
        proof {
            let e = table.entries@[i as int].1;
            assert(t@ == before.insert(name@, copy));
            assert(types_view(t@) =~= types_view(before).insert(name@, copy@));
            assert(types_view(m.insert(name@, e)) =~= types_view(m).insert(name@, e@));
        }
        i += 1;
    }
    proof {
        assert(table.entries@.take(i as int) =~= table.entries@);
    }
    t
}

/// The emission context.
#[derive(Debug)]
pub struct CGContext {
    output: Vec<Instr>,
    strings: Vec<String>,
    vars: Table<Register>,
    types: Table<Type>,
    consts: Table<Const>,
    register: Register,
    label: Register,
    last_label: Register,
    next_const: i32,
    exit: Option<Exit>,
}

impl CGContext {
    /// Whether the counters hold names of their kinds. It holds of every
    /// context that this library hands out.
    pub closed spec fn well_formed(&self) -> bool {
        &&& self.register is Var
        &&& self.label is Label
    }

    pub closed spec fn view(&self) -> GenState {
        GenState {
            output: instrs_view(self.output@),
            strings: strings_view(self.strings@),
            vars: self.vars@,
            types: types_view(self.types@),
            consts: self.consts@,
            register: self.register.index(),
            label: self.label.index(),
            last_label: self.last_label,
            next_const: self.next_const,
            exit: self.exit,
        }
    }

    /// The context before anything is emitted.
    pub fn new() -> (c: CGContext)
        ensures
            c.well_formed(),
            c@ == GenState::initial(),
    {
        let c = CGContext {
            vars: Table::new(),
            types: Table::new(),
            register: Register::Var(0),
            label: Register::Label(0),
            last_label: Register::Label(0),
            output: Vec::new(),
            strings: Vec::new(),
            consts: Table::new(),
            next_const: 0,
            exit: None,
        };
        proof {
            assert(c@.output =~= Seq::<InstrView>::empty());
            assert(c@.strings =~= Seq::<Seq<char>>::empty());
            assert(c@.types =~= Map::<Seq<char>, TypeView>::empty());
        }
        c
    }

    /// The register that holds the address of a variable, if the variable
    /// is in scope.
    pub fn find_register(&self, id: &String) -> (r: Option<Register>)
        ensures
            r == if self@.vars.contains_key(id@) {
                Some(self@.vars[id@])
            } else {
                None
            },
    {
        match self.vars.get(id) {
            Some(reg) => Some(*reg),
            None => None,
        }
    }

    /// The register that holds the address of a variable.
    pub fn get_register(&self, id: &String) -> (r: Register)
        requires
            self@.vars.contains_key(id@),
        ensures
            r == self@.vars[id@],
    {
        match self.vars.get(id) {
            Some(reg) => *reg,
            None => Register::Var(0),
        }
    }

    /// The type of a variable or the result type of a function, if the name
    /// is known.
    pub fn find_type(&self, id: &String) -> (r: Option<Type>)
        ensures
            match r {
                Some(t) => self@.types.contains_key(id@) && t@ == self@.types[id@],
                None => !self@.types.contains_key(id@),
            },
    {
        match self.types.get(id) {
            Some(t) => Some(t.duplicate()),
            None => None,
        }
    }

    /// The type of a variable or the result type of a function.
    pub fn get_type(&self, id: &String) -> (t: Type)
        requires
            self@.types.contains_key(id@),
        ensures
            t@ == self@.types[id@],
    {
        match self.types.get(id) {
            Some(t) => t.duplicate(),
            None => Type::TVoid,
        }
    }

    /// Binds a variable to a fresh register and to its type.
    pub fn add(&mut self, id: &String, t: &Type) -> (reg: Register)
        requires
            old(self).well_formed(),
            old(self)@.register < i32::MAX,
        ensures
            final(self).well_formed(),
            reg == Register::Var(old(self)@.register),
            final(self)@ == old(self)@.take_register().bind(id@, reg, t@),
    {
        let reg = self.next_register();
        self.vars.insert(id.clone(), reg);
        self.types.insert(id.clone(), t.duplicate());
        proof {
            assert(self@.types =~= old(self)@.types.insert(id@, t@));
        }
        reg
    }

    /// Binds a variable that is in scope to another register.
    pub fn switch_reg(&mut self, id: &String, reg: Register)
        requires
            old(self).well_formed(),
        ensures
            final(self).well_formed(),
            final(self)@ == (GenState { vars: old(self)@.vars.insert(id@, reg), ..old(self)@ }),
    {
        self.vars.insert(id.clone(), reg);
    }

    /// Makes the result type of a function known.
    pub fn add_function(&mut self, id: &String, t: &Type)
        requires
            old(self).well_formed(),
        ensures
            final(self).well_formed(),
            final(self)@ == (GenState { types: old(self)@.types.insert(id@, t@), ..old(self)@ }),
    {
        self.types.insert(id.clone(), t.duplicate());
        proof {
            assert(self@.types =~= old(self)@.types.insert(id@, t@));
        }
    }

    /// Takes the next register.
    pub fn next_register(&mut self) -> (res: Register)
        requires
            old(self).well_formed(),
            old(self)@.register < i32::MAX,
        ensures
            final(self).well_formed(),
            res == Register::Var(old(self)@.register),
            final(self)@ == old(self)@.take_register(),
    {
        let res = self.register;
        self.register = self.register.next();
        res
    }

    /// Takes the next label.
    pub fn next_label(&mut self) -> (res: Register)
        requires
            old(self).well_formed(),
            old(self)@.label < i32::MAX,
        ensures
            final(self).well_formed(),
            res == Register::Label(old(self)@.label),
            final(self)@ == old(self)@.take_label(),
    {
        let res = self.label;
        self.label = self.label.next();
        res
    }

    /// Whether the next register can be taken.
    pub fn has_register(&self) -> (b: bool)
        ensures
            b == (self@.register < i32::MAX),
    {
        self.register.unwrap() < i32::MAX
    }

    /// Whether the next label can be taken.
    pub fn has_label(&self) -> (b: bool)
        ensures
            b == (self@.label < i32::MAX),
    {
        self.label.unwrap() < i32::MAX
    }

    /// Whether one more string can be made a constant.
    pub fn has_const(&self) -> (b: bool)
        ensures
            b == (self@.next_const < i32::MAX),
    {
        self.next_const < i32::MAX
    }

    /// The label of the block opened last.
    pub fn last_label(&self) -> (l: Register)
        ensures
            l == self@.last_label,
    {
        self.last_label
    }

    /// Where the function being emitted returns.
    pub fn exit(&self) -> (e: Option<Exit>)
        ensures
            e == self@.exit,
    {
        self.exit
    }

    /// Sets where the function being emitted returns.
    pub fn set_exit(&mut self, exit: Option<Exit>)
        requires
            old(self).well_formed(),
        ensures
            final(self).well_formed(),
            final(self)@ == (GenState { exit: exit, ..old(self)@ }),
    {
        self.exit = exit;
    }

    /// Emits an instruction.
    pub fn add_code(&mut self, code: Instr)
        requires
            old(self).well_formed(),
        ensures
            final(self).well_formed(),
            final(self)@ == old(self)@.emit(code@),
    {
        self.output.push(code);
        proof {
            assert(self@.output =~= old(self)@.output.push(code@));
        }
    }

    /// Opens a block: emits its label and notes it as the label opened last.
    pub fn add_label(&mut self, label: &Register)
        requires
            old(self).well_formed(),
        ensures
            final(self).well_formed(),
            final(self)@ == old(self)@.open(*label),
    {
        self.last_label = *label;
        self.output.push(Instr::Label(*label));
        proof {
            assert(self@.output =~= old(self)@.output.push(InstrView::Label(*label)));
        }
    }

    /// The constant of a string, if the string has been made one.
    pub fn find_const(&self, s: &String) -> (r: Option<Const>)
        ensures
            r == if self@.consts.contains_key(s@) {
                Some(self@.consts[s@])
            } else {
                None
            },
    {
        match self.consts.get(s) {
            Some(c) => Some(*c),
            None => None,
        }
    }

    /// The constant of a string; the string is made a constant if it is
    /// none yet.
    pub fn get_const(&mut self, s: &String) -> (c: Const)
        requires
            old(self).well_formed(),
            old(self)@.consts.contains_key(s@) || old(self)@.next_const < i32::MAX,
        ensures
            final(self).well_formed(),
            old(self)@.consts.contains_key(s@) ==> c == old(self)@.consts[s@] && final(self)@
                == old(self)@,
            !old(self)@.consts.contains_key(s@) ==> c == Const::SConst(old(self)@.next_const)
                && final(self)@ == old(self)@.intern(s@),
    {
        match self.find_const(s) {
            Some(c) => c,
            None => self.add_const(s),
        }
    }

    fn add_const(&mut self, s: &String) -> (c: Const)
        requires
            old(self).well_formed(),
            old(self)@.next_const < i32::MAX,
        ensures
            final(self).well_formed(),
            c == Const::SConst(old(self)@.next_const),
            final(self)@ == old(self)@.intern(s@),
    {
        let const_no = Const::SConst(self.next_const);
        self.next_const = self.next_const + 1;
        self.consts.insert(s.clone(), const_no);
        self.strings.push(s.clone());
        proof {
            assert(self@.strings =~= old(self)@.strings.push(s@));
        }
        const_no
    }

    /// The variables and types of the scope that is being left for a nested
    /// one.
    fn save_scope(&self) -> (scope: Scope)
        ensures
            scope.vars() == self@.vars,
            scope.types() == self@.types,
    {
        Scope { vars: self.vars.snapshot(), types: copy_types(&self.types) }
    }

    /// Leaves a nested scope: the variables and types are again those of
    /// the scope given.
    fn restore_scope(&mut self, scope: Scope)
        requires
            old(self).well_formed(),
        ensures
            final(self).well_formed(),
            final(self)@ == (GenState {
                vars: scope.vars(),
                types: scope.types(),
                ..old(self)@
            }),
    {
        self.vars = scope.vars;
        self.types = scope.types;
    }

    /// Runs a function on this context in a nested scope: what the function
    /// emits and takes stays, and the variables and types are afterwards
    /// those of before.
    pub fn in_new_scope<T, F: Fn(&mut CGContext) -> T>(&mut self, fun: F) -> (r: T)
        requires
            old(self).well_formed(),
            forall|c: &mut CGContext|
                c.well_formed() && c@ == old(self)@ ==> call_requires(fun, (c,)),
            forall|c: &mut CGContext, t: T|
                #[trigger] call_ensures(fun, (c,), t) ==> final(c).well_formed(),
        ensures
            final(self).well_formed(),
            exists|c: &mut CGContext|
                c@ == old(self)@ && #[trigger] call_ensures(fun, (c,), r) && final(self)@
                    == final(c)@.leave(old(self)@),
    {
        let scope = self.save_scope();
        let res = fun(self);
        self.restore_scope(scope);
        res
    }

    /// Runs a function on this context in the scope of the body of a
    /// function: what the function emits and takes stays, and the variables
    /// and types are afterwards those of before.
    pub fn in_new_function_scope<T, F: Fn(&mut CGContext) -> T>(&mut self, fun: F) -> (r: T)
        requires
            old(self).well_formed(),
            forall|c: &mut CGContext|
                c.well_formed() && c@ == old(self)@ ==> call_requires(fun, (c,)),
            forall|c: &mut CGContext, t: T|
                #[trigger] call_ensures(fun, (c,), t) ==> final(c).well_formed(),
        ensures
            final(self).well_formed(),
            exists|c: &mut CGContext|
                c@ == old(self)@ && #[trigger] call_ensures(fun, (c,), r) && final(self)@
                    == final(c)@.leave(old(self)@),
    {
        let scope = self.save_scope();
        let res = fun(self);
        self.restore_scope(scope);
        res
    }

    /// The instructions emitted so far.
    pub fn instructions(&self) -> (v: &Vec<Instr>)
        ensures
            instrs_view(v@) == self@.output,
    {
        &self.output
    }

    /// The string constants made so far.
    pub fn string_constants(&self) -> (v: &Vec<String>)
        ensures
            strings_view(v@) == self@.strings,
    {
        &self.strings
    }
}

} // verus!
