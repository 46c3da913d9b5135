//! The name-resolution registry: maps every name seen in a graph to the argument it
//! currently stands for, among the graph inputs, the graph outputs and the node outputs.

use vstd::prelude::*;
use crate::ir::{
    args_view, decimal, concat_decimal, ArgTypeView, Argument, ArgumentView, ElementType,
    TensorTypeView,
};
use crate::name_map::{last_match, lemma_last_match, NameMap};

verus! {

/// Where a name comes from: a graph input, a graph output, or a prior node's output,
/// each with its index in the corresponding list.
#[derive(Debug, Clone, Copy, PartialEq, Eq, Structural)]
pub enum IOEntry {
    In(usize),
    Out(usize),
    Node(usize),
}

/// Error raised when a graph breaks its own naming rules.
#[derive(Debug, Clone, Copy, PartialEq, Eq, Structural)]
pub enum GraphIOError {
    /// Something is wrong with the graph, such as asking for the updated name of a graph
    /// output.
    InvalidGraphError,
}

/// The state of the registry.
pub ghost struct GraphIOView {
    pub inputs: Seq<ArgumentView>,
    pub outputs: Seq<ArgumentView>,
    pub initializers: Seq<ArgumentView>,
    pub node_out: Seq<ArgumentView>,
    pub keys: Seq<Seq<char>>,
    pub entries: Seq<IOEntry>,
}

/// The names of a sequence of arguments.
pub open spec fn names_of(s: Seq<ArgumentView>) -> Seq<Seq<char>> {
    s.map_values(|a: ArgumentView| a.name)
}

/// The argument named `k` that comes last in `s`.
pub open spec fn find_named(s: Seq<ArgumentView>, k: Seq<char>) -> Option<ArgumentView> {
    let i = last_match(names_of(s), k, s.len() as int);
    if i < 0 {
        None
    } else {
        Some(s[i])
    }
}

/// The entry that a name resolves to.
pub open spec fn entry_of(io: GraphIOView, k: Seq<char>) -> Option<IOEntry> {
    let i = last_match(io.keys, k, io.keys.len() as int);
    if i < 0 {
        None
    } else {
        Some(io.entries[i])
    }
}

/// The initializer of a name, if there is one.
pub open spec fn initializer_of(io: GraphIOView, k: Seq<char>) -> Option<ArgumentView> {
    find_named(io.initializers, k)
}

/// The argument made for a name that the registry does not know.
pub open spec fn fresh_argument(name: Seq<char>) -> ArgumentView {
    ArgumentView {
        name,
        ty: ArgTypeView::Tensor(
            TensorTypeView { elem_type: ElementType::Float32, dim: 0, shape: None },
        ),
        value: None,
        passed: false,
    }
}

/// `a` with the type and value of `src`.
pub open spec fn with_value_of(a: ArgumentView, src: ArgumentView) -> ArgumentView {
    ArgumentView { ty: src.ty, value: src.value, ..a }
}

/// `a` under another name.
pub open spec fn renamed(a: ArgumentView, name: Seq<char>) -> ArgumentView {
    ArgumentView { name, ..a }
}

/// The positional name of the graph input at index `i`.
pub open spec fn input_name(i: nat) -> Seq<char> {
    "input"@ + decimal(i + 1)
}

/// A declared graph input as the registry holds it: renamed to its position, not yet in
/// use, and given the value of an initializer of its name if it has none of its own.
pub open spec fn declared_input(a: ArgumentView, i: nat, inits: Seq<ArgumentView>) -> ArgumentView {
    let b = match find_named(inits, a.name) {
        Some(init) => if a.value is None {
            with_value_of(a, init)
        } else {
            a
        },
        None => a,
    };
    ArgumentView { name: input_name(i), passed: false, ..b }
}

/// A declared graph output as the registry holds it: not yet in use.
pub open spec fn declared_output(a: ArgumentView) -> ArgumentView {
    ArgumentView { passed: false, ..a }
}

/// The entry of a name right after construction: a graph output wins over a graph input.
pub open spec fn declared_entry(
    inputs: Seq<ArgumentView>,
    outputs: Seq<ArgumentView>,
    k: Seq<char>,
) -> Option<IOEntry> {
    let o = last_match(names_of(outputs), k, outputs.len() as int);
    let i = last_match(names_of(inputs), k, inputs.len() as int);
    if o >= 0 {
        Some(IOEntry::Out(o as usize))
    } else if i >= 0 {
        Some(IOEntry::In(i as usize))
    } else {
        None
    }
}

/// The registry after one node output has been propagated to it.
pub open spec fn output_step(io: GraphIOView, o: ArgumentView) -> GraphIOView {
    match entry_of(io, o.name) {
        Some(IOEntry::In(i)) => GraphIOView {
            inputs: io.inputs.update(i as int, with_value_of(io.inputs[i as int], o)),
            ..io
        },
        Some(IOEntry::Out(i)) => GraphIOView {
            outputs: io.outputs.update(
                i as int,
                ArgumentView { passed: true, ..with_value_of(io.outputs[i as int], o) },
            ),
            ..io
        },
        Some(IOEntry::Node(_)) => io,
        None => GraphIOView {
            node_out: io.node_out.push(o),
            keys: io.keys.push(o.name),
            entries: io.entries.push(IOEntry::Node(io.node_out.len() as usize)),
            ..io
        },
    }
}

/// The registry after the node outputs `outs` have been propagated in order.
pub open spec fn after_outputs(io: GraphIOView, outs: Seq<ArgumentView>) -> GraphIOView
    decreases outs.len(),
{
    if outs.len() == 0 {
        io
    } else {
        output_step(after_outputs(io, outs.drop_last()), outs.last())
    }
}

/// Every entry points into its list.
pub open spec fn entries_in_range(io: GraphIOView) -> bool {
    &&& io.keys.len() == io.entries.len()
    &&& forall|j: int|
        0 <= j < io.entries.len() ==> match #[trigger] io.entries[j] {
            IOEntry::In(i) => i < io.inputs.len(),
            IOEntry::Out(i) => i < io.outputs.len(),
            IOEntry::Node(i) => i < io.node_out.len(),
        }
}

/// Finds the last argument of `args` named `k`.
pub fn find_last_arg(args: &Vec<Argument>, k: &String) -> (r: Option<usize>)
    ensures
        match r {
            Some(i) => i < args@.len() && last_match(names_of(args_view(args@)), k@, args@.len() as int)
                == i as int,
            None => last_match(names_of(args_view(args@)), k@, args@.len() as int) == -1,
        },
{
    let ghost names = names_of(args_view(args@));
    let mut i: usize = args.len();
    while i > 0
        invariant
            i <= args@.len(),
            names == names_of(args_view(args@)),
            last_match(names, k@, args@.len() as int) == last_match(names, k@, i as int),
        decreases i,
    {
        if args[i - 1].name == *k {
            return Some(i - 1);
        }
        i = i - 1;
    }
    None
}

/// A copy of a list of arguments with the same view.
pub fn duplicate_args(v: &Vec<Argument>) -> (r: Vec<Argument>)
    ensures
        args_view(r@) == args_view(v@),
{
    let mut r: Vec<Argument> = Vec::new();
    let mut i: usize = 0;
    while i < v.len()
        invariant
            i <= v@.len(),
            r@.len() == i,
            forall|j: int| 0 <= j < i ==> (#[trigger] r@[j])@ == v@[j]@,
        decreases v@.len() - i,
    {
        r.push(v[i].duplicate());
        i = i + 1;
    }
    assert(args_view(r@) =~= args_view(v@));
    r
}

/// The registry of names.
pub struct OnnxGraphIO {
    /// The inputs of the graph.
    pub inputs: Vec<Argument>,
    /// The outputs of the graph.
    pub outputs: Vec<Argument>,
    /// The initializers, under their own names.
    pub initializers: Vec<Argument>,
    /// The outputs of nodes that are neither graph inputs nor graph outputs.
    pub node_out: Vec<Argument>,
    /// The entry of each name.
    pub old_io_names: NameMap<IOEntry>,
}

impl View for OnnxGraphIO {
    type V = GraphIOView;

    open spec fn view(&self) -> GraphIOView {
        GraphIOView {
            inputs: args_view(self.inputs@),
            outputs: args_view(self.outputs@),
            initializers: args_view(self.initializers@),
            node_out: args_view(self.node_out@),
            keys: self.old_io_names.keys.deep_view(),
            entries: self.old_io_names.vals@,
        }
    }
}

impl OnnxGraphIO {
    pub open spec fn wf(&self) -> bool {
        &&& self.old_io_names.wf()
        &&& entries_in_range(self@)
    }

    /// Builds the registry from the declared graph inputs and outputs and the initializers.
    /// Inputs are renamed `input1`, `input2`, ... and take the value of an initializer of
    /// their name when they have none.
    pub fn new(
        inputs: &Vec<Argument>,
        outputs: &Vec<Argument>,
        initializers: &Vec<Argument>,
    ) -> (r: Self)
        requires
            inputs@.len() < usize::MAX,
        ensures
            r.wf(),
            r@.inputs == Seq::new(
                inputs@.len(),
                |i: int| declared_input(inputs@[i]@, i as nat, args_view(initializers@)),
            ),
            r@.outputs == Seq::new(outputs@.len(), |i: int| declared_output(outputs@[i]@)),
            r@.initializers == args_view(initializers@),
            r@.node_out.len() == 0,
            forall|k: Seq<char>|
                entry_of(r@, k) == declared_entry(args_view(inputs@), args_view(outputs@), k),
            outs_declared(r@, names_of(args_view(outputs@))),
            ins_declared(r@, names_of(args_view(inputs@))),
            r@.keys == names_of(args_view(inputs@)) + names_of(args_view(outputs@)),
            r@.entries == Seq::new(inputs@.len(), |i: int| IOEntry::In(i as usize)) + Seq::new(
                outputs@.len(),
                |i: int| IOEntry::Out(i as usize),
            ),
    {
        let mut names: NameMap<IOEntry> = NameMap::new();
        let mut new_inputs: Vec<Argument> = Vec::new();
        let ghost inits = args_view(initializers@);
        let ghost ins = args_view(inputs@);
        let ghost outs = args_view(outputs@);
        let mut i: usize = 0;
        while i < inputs.len()
            invariant
                i <= inputs@.len() < usize::MAX,
                inits == args_view(initializers@),
                ins == args_view(inputs@),
                names.wf(),
                names.keys@.len() == i,
                new_inputs@.len() == i,
                forall|j: int| 0 <= j < i ==> #[trigger] names.vals@[j] == IOEntry::In(j as usize),
                forall|j: int| 0 <= j < i ==> #[trigger] names.keys.deep_view()[j] == names_of(ins)[j],
                forall|j: int|
                    0 <= j < i ==> (#[trigger] new_inputs@[j])@ == declared_input(
                        ins[j],
                        j as nat,
                        inits,
                    ),
                forall|k: Seq<char>|
                    names.lookup(k) == if last_match(names_of(ins), k, i as int) >= 0 {
                        Some(IOEntry::In(last_match(names_of(ins), k, i as int) as usize))
                    } else {
                        None
                    },
            decreases inputs@.len() - i,
        {
            let x = &inputs[i];
            let mut arg = x.duplicate();
            match find_last_arg(initializers, &x.name) {
                Some(j) => {
                    if arg.value.is_none() {
                        arg.copy_value(&initializers[j]);
                    }
                },
                None => {},
            }
            arg.name = concat_decimal("input", i + 1);
            arg.passed = false;
            let ghost before = names;
            names.insert(x.name.clone(), IOEntry::In(i));
            new_inputs.push(arg);
            proof {
                assert(names_of(ins)[i as int] == x.name@);
                assert forall|j: int| 0 <= j < i + 1 implies #[trigger] names.keys.deep_view()[j] == names_of(ins)[j] by {
                    if j < i {
                        assert(names.keys.deep_view()[j] == before.keys.deep_view()[j]);
                    }
                }
                assert forall|k: Seq<char>|
                    names.lookup(k) == if last_match(names_of(ins), k, i + 1) >= 0 {
                        Some(IOEntry::In(last_match(names_of(ins), k, i + 1) as usize))
                    } else {
                        None
                    } by {
                    if k != x.name@ {
                        assert(names.lookup(k) == before.lookup(k));
                    }
                }
            }
            i = i + 1;
        }
        let mut j: usize = 0;
        while j < outputs.len()
            invariant
                j <= outputs@.len(),
                ins == args_view(inputs@),
                outs == args_view(outputs@),
                names.wf(),
                names.keys@.len() == inputs@.len() + j,
                forall|m: int|
                    0 <= m < inputs@.len() ==> #[trigger] names.vals@[m] == IOEntry::In(
                        m as usize,
                    ),
                forall|m: int|
                    0 <= m < inputs@.len() ==> #[trigger] names.keys.deep_view()[m] == names_of(ins)[m],
                forall|m: int|
                    inputs@.len() <= m < inputs@.len() + j ==> #[trigger] names.vals@[m]
                        == IOEntry::Out((m - inputs@.len()) as usize),
                forall|m: int|
                    inputs@.len() <= m < inputs@.len() + j ==> #[trigger] names.keys.deep_view()[m]
                        == names_of(outs)[m - inputs@.len()],
                forall|k: Seq<char>|
                    names.lookup(k) == if last_match(names_of(outs), k, j as int) >= 0 {
                        Some(IOEntry::Out(last_match(names_of(outs), k, j as int) as usize))
                    } else if last_match(names_of(ins), k, ins.len() as int) >= 0 {
                        Some(IOEntry::In(last_match(names_of(ins), k, ins.len() as int) as usize))
                    } else {
                        None
                    },
            decreases outputs@.len() - j,
        {
            let ghost before = names;
            names.insert(outputs[j].name.clone(), IOEntry::Out(j));
            proof {
                assert forall|m: int| 0 <= m < inputs@.len() implies #[trigger] names.keys.deep_view()[m]
                    == names_of(ins)[m] by {
                    assert(names.keys.deep_view()[m] == before.keys.deep_view()[m]);
                }
                assert forall|m: int|
                    inputs@.len() <= m < inputs@.len() + j + 1 implies #[trigger] names.keys.deep_view()[m]
                        == names_of(outs)[m - inputs@.len()] by {
                    if m < inputs@.len() + j {
                        assert(names.keys.deep_view()[m] == before.keys.deep_view()[m]);
                    }
                }
            }
            proof {
                assert(names_of(outs)[j as int] == outputs@[j as int].name@);
                assert forall|k: Seq<char>|
                    names.lookup(k) == if last_match(names_of(outs), k, j + 1) >= 0 {
                        Some(IOEntry::Out(last_match(names_of(outs), k, j + 1) as usize))
                    } else if last_match(names_of(ins), k, ins.len() as int) >= 0 {
                        Some(IOEntry::In(last_match(names_of(ins), k, ins.len() as int) as usize))
                    } else {
                        None
                    } by {
                    if k != outputs@[j as int].name@ {
                        assert(names.lookup(k) == before.lookup(k));
                    }
                }
            }
            j = j + 1;
        }
        let mut new_outputs: Vec<Argument> = Vec::new();
        let mut m: usize = 0;
        while m < outputs.len()
            invariant
                m <= outputs@.len(),
                new_outputs@.len() == m,
                forall|q: int| 0 <= q < m ==> (#[trigger] new_outputs@[q])@ == declared_output(outputs@[q]@),
            decreases outputs@.len() - m,
        {
            let mut o = outputs[m].duplicate();
            o.passed = false;
            new_outputs.push(o);
            m = m + 1;
        }
        let r = OnnxGraphIO {
            inputs: new_inputs,
            outputs: new_outputs,
            initializers: duplicate_args(initializers),
            node_out: Vec::new(),
            old_io_names: names,
        };
        proof {
            assert(r@.outputs =~= Seq::new(outputs@.len(), |i: int| declared_output(outputs@[i]@)));
            assert(r@.keys =~= names_of(args_view(inputs@)) + names_of(args_view(outputs@)));
            assert(r@.entries =~= Seq::new(inputs@.len(), |i: int| IOEntry::In(i as usize)) + Seq::new(
                outputs@.len(),
                |i: int| IOEntry::Out(i as usize),
            ));
            assert(r@.inputs =~= Seq::new(
                inputs@.len(),
                |i: int| declared_input(inputs@[i]@, i as nat, args_view(initializers@)),
            ));
            assert forall|k: Seq<char>|
                entry_of(r@, k) == declared_entry(args_view(inputs@), args_view(outputs@), k) by {
                assert(entry_of(r@, k) == r.old_io_names.lookup(k));
            }
            assert forall|m: int|
                0 <= m < r@.entries.len() && r@.entries[m] is Out implies names_of(
                    args_view(outputs@),
                ).contains(#[trigger] r@.keys[m]) by {
                if m < inputs@.len() {
                    assert(r@.entries[m] == IOEntry::In(m as usize));
                } else {
                    assert(names_of(args_view(outputs@))[m - inputs@.len()] == r@.keys[m]);
                }
            }
            assert forall|m: int| 0 <= m < r@.entries.len() implies match #[trigger] r@.entries[m] {
                IOEntry::In(i) => i < names_of(args_view(inputs@)).len() && r@.keys[m] == names_of(
                    args_view(inputs@),
                )[i as int],
                _ => true,
            } by {
                if m < inputs@.len() {
                    assert(r@.entries[m] == IOEntry::In(m as usize));
                } else {
                    assert(r@.entries[m] == IOEntry::Out((m - inputs@.len()) as usize));
                }
            }
            assert forall|m: int| 0 <= m < r@.entries.len() implies match #[trigger] r@.entries[m] {
                IOEntry::In(i) => i < r@.inputs.len(),
                IOEntry::Out(i) => i < r@.outputs.len(),
                IOEntry::Node(i) => i < r@.node_out.len(),
            } by {
                if m < inputs@.len() {
                    assert(r@.entries[m] == IOEntry::In(m as usize));
                } else {
                    assert(r@.entries[m] == IOEntry::Out((m - inputs@.len()) as usize));
                }
            }
        }
        r
    }

    /// The entry of a name.
    fn entry(&self, name: &String) -> (r: Option<IOEntry>)
        requires
            self.wf(),
        ensures
            r == entry_of(self@, name@),
            match r {
                Some(IOEntry::In(i)) => i < self.inputs@.len(),
                Some(IOEntry::Out(i)) => i < self.outputs@.len(),
                Some(IOEntry::Node(i)) => i < self.node_out@.len(),
                None => true,
            },
    {
        proof {
            lemma_last_match(self@.keys, name@, self@.keys.len() as int);
        }
        self.old_io_names.get(name)
    }

    /// The initializer of a name.
    fn initializer(&self, name: &String) -> (r: Option<usize>)
        ensures
            match r {
                Some(j) => j < self.initializers@.len() && initializer_of(self@, name@) == Some(
                    self@.initializers[j as int],
                ),
                None => initializer_of(self@, name@) is None,
            },
    {
        proof {
            lemma_last_match(names_of(self@.initializers), name@, self@.initializers.len() as int);
        }
        find_last_arg(&self.initializers, name)
    }

    /// Renames the argument that `name` resolves to, in place. Graph inputs keep the names
    /// they were given at construction, and a name the registry does not know is an error.
    pub fn update_name(&mut self, name: &String, new_name: &String) -> (r: Result<(), GraphIOError>)
        requires
            old(self).wf(),
        ensures
            final(self).wf(),
            match entry_of(old(self)@, name@) {
                Some(IOEntry::Out(i)) => r is Ok && final(self)@ == (GraphIOView {
                    outputs: old(self)@.outputs.update(
                        i as int,
                        renamed(old(self)@.outputs[i as int], new_name@),
                    ),
                    ..old(self)@
                }),
                Some(IOEntry::Node(i)) => r is Ok && final(self)@ == (GraphIOView {
                    node_out: old(self)@.node_out.update(
                        i as int,
                        renamed(old(self)@.node_out[i as int], new_name@),
                    ),
                    ..old(self)@
                }),
                _ => r is Err && final(self)@ == old(self)@,
            },
    {
        match self.entry(name) {
            Some(IOEntry::In(_)) => Err(GraphIOError::InvalidGraphError),
            Some(IOEntry::Out(i)) => {
                self.outputs[i].name = new_name.clone();
                proof {
                    assert(self@.outputs =~= old(self)@.outputs.update(
                        i as int,
                        renamed(old(self)@.outputs[i as int], new_name@),
                    ));
                }
                Ok(())
            },
            Some(IOEntry::Node(i)) => {
                self.node_out[i].name = new_name.clone();
                proof {
                    assert(self@.node_out =~= old(self)@.node_out.update(
                        i as int,
                        renamed(old(self)@.node_out[i as int], new_name@),
                    ));
                }
                Ok(())
            },
            None => Err(GraphIOError::InvalidGraphError),
        }
    }

    /// The argument a node input of the given name starts from. Names stay as they are
    /// in the file, since they are still the keys of the registry.
    pub fn init_in(&self, proto_str: &String) -> (r: Result<Argument, GraphIOError>)
        requires
            self.wf(),
        ensures
            match entry_of(self@, proto_str@) {
                None => r matches Ok(a) && a@ == match initializer_of(self@, proto_str@) {
                    Some(init) => init,
                    None => fresh_argument(proto_str@),
                },
                Some(IOEntry::In(i)) => r matches Ok(a) && a@ == (ArgumentView {
                    name: proto_str@,
                    passed: true,
                    ..self@.inputs[i as int]
                }),
                Some(IOEntry::Node(i)) => r matches Ok(a) && a@ == renamed(
                    self@.node_out[i as int],
                    proto_str@,
                ),
                Some(IOEntry::Out(_)) => r is Err,
            },
    {
        match self.entry(proto_str) {
            None => match self.initializer(proto_str) {
                Some(j) => Ok(self.initializers[j].duplicate()),
                None => Ok(Argument::new(proto_str.clone())),
            },
            Some(IOEntry::In(i)) => {
                let mut arg = self.inputs[i].duplicate();
                arg.name = proto_str.clone();
                arg.passed = true;
                Ok(arg)
            },
            Some(IOEntry::Node(i)) => {
                let mut arg = self.node_out[i].duplicate();
                arg.name = proto_str.clone();
                Ok(arg)
            },
            Some(IOEntry::Out(_)) => Err(GraphIOError::InvalidGraphError),
        }
    }

    /// Registers the output of a Constant or Identity node under a new name: renames the
    /// node output in place if its name still resolves to it, else adds a new one.
    pub fn insert(&mut self, arg: &Argument, new_name: &String)
        requires
            old(self).wf(),
        ensures
            final(self).wf(),
            final(self)@ == insert_spec(old(self)@, arg@, new_name@),
    {
        match self.entry(&arg.name) {
            Some(IOEntry::Node(idx)) => {
                if self.node_out[idx].name == arg.name {
                    self.node_out[idx].name = new_name.clone();
                    proof {
                        assert(self@.node_out =~= old(self)@.node_out.update(
                            idx as int,
                            renamed(old(self)@.node_out[idx as int], new_name@),
                        ));
                    }
                    return;
                }
            },
            _ => {},
        }
        let idx = self.node_out.len();
        self.old_io_names.insert(arg.name.clone(), IOEntry::Node(idx));
        let mut a = arg.duplicate();
        a.name = new_name.clone();
        self.node_out.push(a);
        proof {
            assert(self@.node_out =~= old(self)@.node_out.push(renamed(arg@, new_name@)));
            assert(self@.keys =~= old(self)@.keys.push(arg@.name));
            assert forall|m: int| 0 <= m < self@.entries.len() implies match #[trigger] self@.entries[m] {
                IOEntry::In(i) => i < self@.inputs.len(),
                IOEntry::Out(i) => i < self@.outputs.len(),
                IOEntry::Node(i) => i < self@.node_out.len(),
            } by {
                if m < old(self)@.entries.len() {
                    assert(self@.entries[m] == old(self)@.entries[m]);
                }
            }
        }
    }

    /// Propagates the outputs of a finished node: a graph input or output of the same name
    /// takes its type and value (a graph output is then in use); a new name becomes a node
    /// output.
    pub fn update_tensor_output(&mut self, outputs: &Vec<Argument>)
        requires
            old(self).wf(),
        ensures
            final(self).wf(),
            final(self)@ == after_outputs(old(self)@, args_view(outputs@)),
    {
        let mut k: usize = 0;
        while k < outputs.len()
            invariant
                k <= outputs@.len(),
                self.wf(),
                self@ == after_outputs(old(self)@, args_view(outputs@).take(k as int)),
            decreases outputs@.len() - k,
        {
            let o = &outputs[k];
            let ghost prev = self@;
            match self.entry(&o.name) {
                Some(IOEntry::In(i)) => {
                    self.inputs[i].copy_value(o);
                    proof {
                        assert(self@.inputs =~= prev.inputs.update(
                            i as int,
                            with_value_of(prev.inputs[i as int], o@),
                        ));
                    }
                },
                Some(IOEntry::Out(i)) => {
                    self.outputs[i].copy_value(o);
                    self.outputs[i].passed = true;
                    proof {
                        assert(self@.outputs =~= prev.outputs.update(
                            i as int,
                            ArgumentView { passed: true, ..with_value_of(prev.outputs[i as int], o@) },
                        ));
                    }
                },
                Some(IOEntry::Node(_)) => {},
                None => {
                    let idx = self.node_out.len();
                    self.old_io_names.insert(o.name.clone(), IOEntry::Node(idx));
                    self.node_out.push(o.duplicate());
                    proof {
                        assert(self@.node_out =~= prev.node_out.push(o@));
                        assert(self@.keys =~= prev.keys.push(o@.name));
                        assert forall|m: int| 0 <= m < self@.entries.len() implies match #[trigger] self@.entries[m] {
                            IOEntry::In(i) => i < self@.inputs.len(),
                            IOEntry::Out(i) => i < self@.outputs.len(),
                            IOEntry::Node(i) => i < self@.node_out.len(),
                        } by {
                            if m < prev.entries.len() {
                                assert(self@.entries[m] == prev.entries[m]);
                            }
                        }
                    }
                },
            }
            proof {
                let s = args_view(outputs@);
                assert(s.take(k + 1).drop_last() =~= s.take(k as int));
                assert(s.take(k + 1).last() == o@);
            }
            k = k + 1;
        }
        proof {
            assert(args_view(outputs@).take(outputs@.len() as int) =~= args_view(outputs@));
        }
    }

    /// The graph input or output that `old_name` resolves to, without marking it used.
    /// A name of a prior node's output is an error.
    pub fn get_node_output(&self, old_name: &String) -> (r: Result<Option<Argument>, GraphIOError>)
        requires
            self.wf(),
        ensures
            match entry_of(self@, old_name@) {
                Some(IOEntry::In(i)) => r matches Ok(Some(a)) && a@ == self@.inputs[i as int],
                Some(IOEntry::Out(i)) => r matches Ok(Some(a)) && a@ == self@.outputs[i as int],
                Some(IOEntry::Node(_)) => r is Err,
                None => r matches Ok(None),
            },
    {
        match self.entry(old_name) {
            Some(IOEntry::In(i)) => Ok(Some(self.inputs[i].duplicate())),
            Some(IOEntry::Out(i)) => Ok(Some(self.outputs[i].duplicate())),
            Some(IOEntry::Node(_)) => Err(GraphIOError::InvalidGraphError),
            None => Ok(None),
        }
    }

    /// The name a node input takes downstream. A graph input is marked used, unless an
    /// initializer has its name: then, as for any name that is not a graph input or a node
    /// output, there is no name. A graph output is an error.
    pub fn get_new_name(&mut self, old_name: &String) -> (r: Result<Option<String>, GraphIOError>)
        requires
            old(self).wf(),
        ensures
            final(self).wf(),
            final(self)@.inputs.len() == old(self)@.inputs.len(),
            forall|m: int|
                0 <= m < old(self)@.inputs.len() ==> #[trigger] final(self)@.inputs[m].name
                    == old(self)@.inputs[m].name,
            match entry_of(old(self)@, old_name@) {
                Some(IOEntry::In(i)) => if initializer_of(old(self)@, old_name@) is Some {
                    r matches Ok(None) && final(self)@ == old(self)@
                } else {
                    r matches Ok(Some(n)) && n@ == old(self)@.inputs[i as int].name
                        && final(self)@ == (GraphIOView {
                        inputs: old(self)@.inputs.update(
                            i as int,
                            ArgumentView { passed: true, ..old(self)@.inputs[i as int] },
                        ),
                        ..old(self)@
                    })
                },
                Some(IOEntry::Out(_)) => r is Err && final(self)@ == old(self)@,
                Some(IOEntry::Node(i)) => r matches Ok(Some(n)) && n@ == old(self)@.node_out[
                    i as int
                ].name && final(self)@ == old(self)@,
                None => r matches Ok(None) && final(self)@ == old(self)@,
            },
    {
        match self.entry(old_name) {
            Some(IOEntry::In(i)) => {
                if self.initializer(old_name).is_some() {
                    Ok(None)
                } else {
                    self.inputs[i].passed = true;
                    proof {
                        assert(self@.inputs =~= old(self)@.inputs.update(
                            i as int,
                            ArgumentView { passed: true, ..old(self)@.inputs[i as int] },
                        ));
                    }
                    Ok(Some(self.inputs[i].name.clone()))
                }
            },
            Some(IOEntry::Out(_)) => Err(GraphIOError::InvalidGraphError),
            Some(IOEntry::Node(i)) => Ok(Some(self.node_out[i].name.clone())),
            None => Ok(None),
        }
    }
}

/// The registry after `insert(arg, new_name)`.
pub open spec fn insert_spec(io: GraphIOView, arg: ArgumentView, new_name: Seq<char>) -> GraphIOView {
    match entry_of(io, arg.name) {
        Some(IOEntry::Node(idx)) if io.node_out[idx as int].name == arg.name => GraphIOView {
            node_out: io.node_out.update(idx as int, renamed(io.node_out[idx as int], new_name)),
            ..io
        },
        _ => GraphIOView {
            node_out: io.node_out.push(renamed(arg, new_name)),
            keys: io.keys.push(arg.name),
            entries: io.entries.push(IOEntry::Node(io.node_out.len() as usize)),
            ..io
        },
    }
}


/// Every name that resolves to a graph output is one of `declared`.
pub open spec fn outs_declared(io: GraphIOView, declared: Seq<Seq<char>>) -> bool {
    forall|j: int|
        0 <= j < io.entries.len() && io.entries[j] is Out ==> declared.contains(#[trigger] io.keys[j])
}

/// Registering a Constant or Identity output adds no graph-output entry.
pub proof fn lemma_insert_keeps_outs(io: GraphIOView, arg: ArgumentView, new_name: Seq<char>, declared: Seq<Seq<char>>)
    requires
        io.keys.len() == io.entries.len(),
        outs_declared(io, declared),
    ensures
        outs_declared(insert_spec(io, arg, new_name), declared),
{
    let next = insert_spec(io, arg, new_name);
    assert forall|j: int|
        0 <= j < next.entries.len() && next.entries[j] is Out implies declared.contains(
            #[trigger] next.keys[j],
        ) by {
        if j < io.entries.len() {
            assert(next.entries[j] == io.entries[j]);
            assert(next.keys[j] == io.keys[j]);
        }
    }
}


/// Every name that resolves to a graph input is that input's declared name.
pub open spec fn ins_declared(io: GraphIOView, declared: Seq<Seq<char>>) -> bool {
    forall|j: int|
        0 <= j < io.entries.len() ==> match #[trigger] io.entries[j] {
            IOEntry::In(i) => i < declared.len() && io.keys[j] == declared[i as int],
            _ => true,
        }
}

/// A name that resolves to the graph input at index `i` is that input's declared name.
pub proof fn lemma_in_entry_declared(io: GraphIOView, declared: Seq<Seq<char>>, k: Seq<char>, i: usize)
    requires
        io.keys.len() == io.entries.len(),
        ins_declared(io, declared),
        entry_of(io, k) == Some(IOEntry::In(i)),
    ensures
        i < declared.len(),
        k == declared[i as int],
{
    lemma_last_match(io.keys, k, io.keys.len() as int);
    let j = last_match(io.keys, k, io.keys.len() as int);
    assert(io.entries[j] == IOEntry::In(i));
}

/// Propagating node outputs keeps the graph inputs' names and flags, the initializers,
/// and the entries of graph inputs.
pub proof fn lemma_after_outputs_keeps_inputs(io: GraphIOView, outs: Seq<ArgumentView>, declared: Seq<Seq<char>>)
    requires
        io.keys.len() == io.entries.len(),
        ins_declared(io, declared),
        declared.len() == io.inputs.len(),
    ensures
        after_outputs(io, outs).keys.len() == after_outputs(io, outs).entries.len(),
        ins_declared(after_outputs(io, outs), declared),
        after_outputs(io, outs).initializers == io.initializers,
        after_outputs(io, outs).inputs.len() == io.inputs.len(),
        forall|i: int|
            0 <= i < io.inputs.len() ==> (#[trigger] after_outputs(io, outs).inputs[i]).name
                == io.inputs[i].name && after_outputs(io, outs).inputs[i].passed
                == io.inputs[i].passed,
    decreases outs.len(),
{
    if outs.len() > 0 {
        lemma_after_outputs_keeps_inputs(io, outs.drop_last(), declared);
        let prev = after_outputs(io, outs.drop_last());
        let next = output_step(prev, outs.last());
        lemma_last_match(prev.keys, outs.last().name, prev.keys.len() as int);
        assert forall|j: int| 0 <= j < next.entries.len() implies match #[trigger] next.entries[j] {
            IOEntry::In(i) => i < declared.len() && next.keys[j] == declared[i as int],
            _ => true,
        } by {
            if j < prev.entries.len() {
                assert(next.entries[j] == prev.entries[j]);
                assert(next.keys[j] == prev.keys[j]);
            }
        }
        assert forall|i: int| 0 <= i < io.inputs.len() implies (#[trigger] next.inputs[i]).name
            == io.inputs[i].name && next.inputs[i].passed == io.inputs[i].passed by {
            assert(prev.inputs[i].name == io.inputs[i].name);
        }
    }
}

/// Registering a Constant or Identity output keeps the graph inputs, the initializers and
/// the entries of graph inputs.
pub proof fn lemma_insert_keeps_inputs(io: GraphIOView, arg: ArgumentView, new_name: Seq<char>, declared: Seq<Seq<char>>)
    requires
        io.keys.len() == io.entries.len(),
        ins_declared(io, declared),
    ensures
        ins_declared(insert_spec(io, arg, new_name), declared),
        insert_spec(io, arg, new_name).inputs == io.inputs,
        insert_spec(io, arg, new_name).initializers == io.initializers,
{
    let next = insert_spec(io, arg, new_name);
    assert forall|j: int| 0 <= j < next.entries.len() implies match #[trigger] next.entries[j] {
        IOEntry::In(i) => i < declared.len() && next.keys[j] == declared[i as int],
        _ => true,
    } by {
        if j < io.entries.len() {
            assert(next.entries[j] == io.entries[j]);
            assert(next.keys[j] == io.keys[j]);
        }
    }
}

} // verus!
