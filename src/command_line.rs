use vstd::prelude::*;

use indexmap::IndexMap;

use crate::entries::{has_name, lemma_lookup_at, lemma_read_back, lookup, unique_names};
use crate::error::CommandLineError;
use crate::parameter::{
    declared_optional, effective_occurrence, long_view, normalized_occurrence, valid_identifiers, MandatoryParameter,
    OptionalParameter, OptionalParameterView,
};
use crate::positional::{
    positional_at, positional_contains, positional_entries, positional_insert, positional_last,
    positional_len, positional_new,
};

verus! {

/// No positional parameter allows zero occurrences, and only the last one may
/// allow more than one.
pub open spec fn positional_rule(params: Seq<(Seq<char>, Option<u8>)>) -> bool {
    &&& forall|i: int| 0 <= i < params.len() ==> (#[trigger] params[i]).1 != Some(0u8)
    &&& forall|i: int|
        0 <= i < params.len() - 1 ==> effective_occurrence((#[trigger] params[i]).1) == 1
}

/// The last positional parameter declared allows more than one occurrence,
/// so no other may follow it.
pub open spec fn last_repeats(params: Seq<(Seq<char>, Option<u8>)>) -> bool {
    params.len() > 0 && effective_occurrence(params.last().1) > 1
}

/// Named optional parameters as names and declarations.
pub open spec fn optional_entries(entries: Seq<(String, OptionalParameter)>) -> Seq<
    (Seq<char>, OptionalParameterView),
> {
    entries.map_values(|e: (String, OptionalParameter)| (e.0@, e.1@))
}

/// Named actions as names and nested command lines.
pub open spec fn action_entries(entries: Seq<(String, CommandLine)>) -> Seq<(Seq<char>, CommandLine)> {
    entries.map_values(|e: (String, CommandLine)| (e.0@, e.1))
}

/// What a command line declares: each collection as its entries in the order
/// of declaration.
pub ghost struct CommandLineView {
    pub actions: Seq<(Seq<char>, CommandLine)>,
    pub options: Seq<(Seq<char>, OptionalParameterView)>,
    pub flags: Seq<(Seq<char>, OptionalParameterView)>,
    pub parameters: Seq<(Seq<char>, Option<u8>)>,
}

impl CommandLineView {
    /// A command line that declares nothing.
    pub open spec fn empty() -> CommandLineView {
        CommandLineView {
            actions: Seq::empty(),
            options: Seq::empty(),
            flags: Seq::empty(),
            parameters: Seq::empty(),
        }
    }

    /// This declaration with an action appended under `name`.
    pub open spec fn with_action(self, name: Seq<char>, action: CommandLine) -> CommandLineView {
        CommandLineView { actions: self.actions.push((name, action)), ..self }
    }

    /// This declaration with an option appended under `name`.
    pub open spec fn with_option(self, name: Seq<char>, p: OptionalParameterView) -> CommandLineView {
        CommandLineView { options: self.options.push((name, p)), ..self }
    }

    /// This declaration with a flag appended under `name`.
    pub open spec fn with_flag(self, name: Seq<char>, p: OptionalParameterView) -> CommandLineView {
        CommandLineView { flags: self.flags.push((name, p)), ..self }
    }

    /// This declaration with a positional parameter appended under `name`.
    pub open spec fn with_parameter(self, name: Seq<char>, max_occurrence: Option<u8>) -> CommandLineView {
        CommandLineView { parameters: self.parameters.push((name, max_occurrence)), ..self }
    }

    /// Names are unique in each collection, and the positional parameters
    /// keep their rule.
    pub open spec fn consistent(self) -> bool {
        &&& unique_names(self.actions)
        &&& unique_names(self.options)
        &&& unique_names(self.flags)
        &&& unique_names(self.parameters)
        &&& positional_rule(self.parameters)
    }
}

/// Reading back an option: once declared under a name that was free, the
/// name looks up what was declared (identifiers as given, the limit settled),
/// and every other name looks up what it did before.
pub proof fn lemma_option_read_back(
    before: CommandLineView,
    name: Seq<char>,
    long: Option<String>,
    short: Option<char>,
    max_occurrence: Option<u8>,
)
    requires
        before.consistent(),
        !has_name(before.options, name),
    ensures
        lookup(before.with_option(name, declared_optional(long, short, max_occurrence)).options, name)
            == Some(declared_optional(long, short, max_occurrence)),
        declared_optional(long, short, max_occurrence).long == long_view(long),
        declared_optional(long, short, max_occurrence).short == short,
        declared_optional(long, short, max_occurrence).max_occurrence == normalized_occurrence(max_occurrence),
        forall|other: Seq<char>|
            other != name ==> #[trigger] lookup(before.with_option(name, declared_optional(long, short, max_occurrence)).options, other)
                == lookup(before.options, other),
{
    lemma_read_back(before.options, name, declared_optional(long, short, max_occurrence));
}

/// Reading back a flag: once declared under a name that was free, the name
/// looks up what was declared (identifiers as given, the limit settled), and
/// every other name looks up what it did before.
pub proof fn lemma_flag_read_back(
    before: CommandLineView,
    name: Seq<char>,
    long: Option<String>,
    short: Option<char>,
    max_occurrence: Option<u8>,
)
    requires
        before.consistent(),
        !has_name(before.flags, name),
    ensures
        lookup(before.with_flag(name, declared_optional(long, short, max_occurrence)).flags, name)
            == Some(declared_optional(long, short, max_occurrence)),
        declared_optional(long, short, max_occurrence).long == long_view(long),
        declared_optional(long, short, max_occurrence).short == short,
        declared_optional(long, short, max_occurrence).max_occurrence == normalized_occurrence(max_occurrence),
        forall|other: Seq<char>|
            other != name ==> #[trigger] lookup(before.with_flag(name, declared_optional(long, short, max_occurrence)).flags, other)
                == lookup(before.flags, other),
{
    lemma_read_back(before.flags, name, declared_optional(long, short, max_occurrence));
}

/// Reading back a positional parameter: once declared under a name that was
/// free, it stands last in order with the limit as given, the name looks it
/// up, and every other name looks up what it did before.
pub proof fn lemma_parameter_read_back(before: CommandLineView, name: Seq<char>, max_occurrence: Option<u8>)
    requires
        before.consistent(),
        !has_name(before.parameters, name),
    ensures
        before.with_parameter(name, max_occurrence).parameters.len() == before.parameters.len() + 1,
        before.with_parameter(name, max_occurrence).parameters[before.parameters.len() as int] == (name, max_occurrence),
        forall|i: int| 0 <= i < before.parameters.len() ==> #[trigger] before.with_parameter(name, max_occurrence).parameters[i] == before.parameters[i],
        lookup(before.with_parameter(name, max_occurrence).parameters, name) == Some(max_occurrence),
        forall|other: Seq<char>|
            other != name ==> #[trigger] lookup(before.with_parameter(name, max_occurrence).parameters, other)
                == lookup(before.parameters, other),
{
    lemma_read_back(before.parameters, name, max_occurrence);
}

/// Reading back an action: once declared under a name that was free, the
/// name looks up the command line attached, and every other name looks up
/// what it did before.
pub proof fn lemma_action_read_back(before: CommandLineView, name: Seq<char>, action: CommandLine)
    requires
        before.consistent(),
        !has_name(before.actions, name),
    ensures
        lookup(before.with_action(name, action).actions, name) == Some(action),
        forall|other: Seq<char>|
            other != name ==> #[trigger] lookup(before.with_action(name, action).actions, other)
                == lookup(before.actions, other),
{
    lemma_read_back(before.actions, name, action);
}

/// A command line specification.
pub struct CommandLine {
    /// Sub command lines: in `git add ...`, "add" is an action. An action
    /// follows the program name or another action.
    actions: Vec<(String, CommandLine)>,
    /// Optional parameters with an explicit value: `--input=<value>`.
    option: Vec<(String, OptionalParameter)>,
    /// Optional parameters with an implicit boolean value: `--verbose`.
    flag: Vec<(String, OptionalParameter)>,
    /// Positional parameters at the end of the command line, in the order of
    /// declaration.
    parameter: IndexMap<String, MandatoryParameter>,
}

impl View for CommandLine {
    type V = CommandLineView;

    closed spec fn view(&self) -> CommandLineView {
        CommandLineView {
            actions: action_entries(self.actions@),
            options: optional_entries(self.option@),
            flags: optional_entries(self.flag@),
            parameters: positional_entries(self.parameter),
        }
    }
}

/// The index of the entry named `name`, if any.
fn position_of<V>(entries: &Vec<(String, V)>, name: &String) -> (r: Option<usize>)
    ensures
        r matches Some(i) ==> i < entries@.len() && entries@[i as int].0@ == name@,
        r is None ==> forall|i: int| 0 <= i < entries@.len() ==> (#[trigger] entries@[i]).0@ != name@,
{
    let mut i: usize = 0;
    while i < entries.len()
        invariant
            i <= entries@.len(),
            forall|k: int| 0 <= k < i ==> (#[trigger] entries@[k]).0@ != name@,
        decreases entries@.len() - i,
    {
        if entries[i].0 == *name {
            return Some(i);
        }
        i += 1;
    }
    None
}

/// The optional parameter named `name` in `entries`, if any.
fn find_optional<'a>(entries: &'a Vec<(String, OptionalParameter)>, name: &String) -> (r: Option<&'a OptionalParameter>)
    requires
        unique_names(optional_entries(entries@)),
    ensures
        r is None <==> lookup(optional_entries(entries@), name@) is None,
        r matches Some(p) ==> lookup(optional_entries(entries@), name@) == Some(p@),
{
    let ghost view = optional_entries(entries@);
    match position_of(entries, name) {
        Some(i) => {
            proof {
                assert(view[i as int] == (entries@[i as int].0@, entries@[i as int].1@));
                lemma_lookup_at(view, i as int);
            }
            Some(&entries[i].1)
        },
        None => {
            assert forall|k: int| 0 <= k < view.len() implies (#[trigger] view[k]).0 != name@ by {
                assert(view[k].0 == entries@[k].0@);
            }
            None
        },
    }
}

/// Declares an optional parameter under `name` in `entries`.
fn declare_optional(
    entries: &mut Vec<(String, OptionalParameter)>,
    name: String,
    long: Option<String>,
    short: Option<char>,
    max_occurrence: Option<u8>,
) -> (r: Result<(), CommandLineError>)
    requires
        unique_names(optional_entries(old(entries)@)),
    ensures
        r == Err::<(), _>(CommandLineError::DuplicateName) <==> has_name(
            optional_entries(old(entries)@),
            name@,
        ),
        r == Err::<(), _>(CommandLineError::InvalidDeclaration) <==> !has_name(
            optional_entries(old(entries)@),
            name@,
        ) && !valid_identifiers(long_view(long), short),
        r is Ok <==> !has_name(optional_entries(old(entries)@), name@) && valid_identifiers(long_view(long), short),
        r is Ok ==> optional_entries(final(entries)@) == optional_entries(old(entries)@).push(
            (name@, declared_optional(long, short, max_occurrence)),
        ),
        r is Err ==> final(entries)@ == old(entries)@,
        unique_names(optional_entries(final(entries)@)),
{
    let ghost before = optional_entries(entries@);
    match position_of(entries, &name) {
        Some(i) => {
            assert(before[i as int].0 == name@);
            return Err(CommandLineError::DuplicateName);
        },
        None => {
            assert forall|k: int| 0 <= k < before.len() implies (#[trigger] before[k]).0 != name@ by {
                assert(before[k].0 == entries@[k].0@);
            }
        },
    }
    let p = match OptionalParameter::new(long, short, max_occurrence) {
        Ok(p) => p,
        Err(e) => {
            return Err(e);
        },
    };
    let ghost declared = p@;
    let ghost key = name@;
    entries.push((name, p));
    proof {
        assert(optional_entries(entries@) =~= before.push((key, declared)));
        lemma_read_back(before, key, declared);
    }
    Ok(())
}

impl CommandLine {
    /// The declarations stay consistent.
    #[verifier::type_invariant]
    spec fn well_formed(self) -> bool {
        self@.consistent()
    }

    /// A command line that declares nothing.
    pub fn new() -> (r: CommandLine)
        ensures
            r@ == CommandLineView::empty(),
            r@.consistent(),
    {
        let r = CommandLine {
            actions: Vec::new(),
            option: Vec::new(),
            flag: Vec::new(),
            parameter: positional_new(),
        };
        assert(r@.actions =~= Seq::empty());
        assert(r@.options =~= Seq::empty());
        assert(r@.flags =~= Seq::empty());
        r
    }

    /// Declares an option, a parameter with an explicit value, under `name`.
    pub fn add_option(
        &mut self,
        name: String,
        long: Option<String>,
        short: Option<char>,
        max_occurrence: Option<u8>,
    ) -> (r: Result<(), CommandLineError>)
        ensures
            r == Err::<(), _>(CommandLineError::DuplicateName) <==> has_name(old(self)@.options, name@),
            r == Err::<(), _>(CommandLineError::InvalidDeclaration) <==> !has_name(old(self)@.options, name@) && !valid_identifiers(long_view(long), short),
            r is Ok <==> !has_name(old(self)@.options, name@) && valid_identifiers(long_view(long), short),
            r is Ok ==> final(self)@ == old(self)@.with_option(name@, declared_optional(long, short, max_occurrence)),
            r is Err ==> final(self)@ == old(self)@,
            final(self)@.consistent(),
    {
        proof {
            use_type_invariant(&*self);
        }
        let mut option = Vec::new();
        std::mem::swap(&mut option, &mut self.option);
        let r = declare_optional(&mut option, name, long, short, max_occurrence);
        self.option = option;
        r
    }

    /// Declares a flag, a parameter with an implicit boolean value, under
    /// `name`.
    pub fn add_flag(
        &mut self,
        name: String,
        long: Option<String>,
        short: Option<char>,
        max_occurrence: Option<u8>,
    ) -> (r: Result<(), CommandLineError>)
        ensures
            r == Err::<(), _>(CommandLineError::DuplicateName) <==> has_name(old(self)@.flags, name@),
            r == Err::<(), _>(CommandLineError::InvalidDeclaration) <==> !has_name(old(self)@.flags, name@) && !valid_identifiers(long_view(long), short),
            r is Ok <==> !has_name(old(self)@.flags, name@) && valid_identifiers(long_view(long), short),
            r is Ok ==> final(self)@ == old(self)@.with_flag(name@, declared_optional(long, short, max_occurrence)),
            r is Err ==> final(self)@ == old(self)@,
            final(self)@.consistent(),
    {
        proof {
            use_type_invariant(&*self);
        }
        let mut flag = Vec::new();
        std::mem::swap(&mut flag, &mut self.flag);
        let r = declare_optional(&mut flag, name, long, short, max_occurrence);
        self.flag = flag;
        r
    }

    /// Declares a positional parameter under `name`, after those declared
    /// before. It is refused where the last one declared may repeat, since
    /// that one would take the tokens meant for the new one.
    pub fn add_parameter(&mut self, name: String, max_occurrence: Option<u8>) -> (r: Result<(), CommandLineError>)
        ensures
            r == Err::<(), _>(CommandLineError::DuplicateName) <==> has_name(old(self)@.parameters, name@),
            r == Err::<(), _>(CommandLineError::InvalidDeclaration) <==> !has_name(old(self)@.parameters, name@) && (last_repeats(old(self)@.parameters) || max_occurrence == Some(0u8)),
            r is Ok <==> !has_name(old(self)@.parameters, name@) && !last_repeats(old(self)@.parameters) && max_occurrence != Some(0u8),
            r is Ok ==> final(self)@ == old(self)@.with_parameter(name@, max_occurrence),
            r is Err ==> final(self)@ == old(self)@,
            final(self)@.consistent(),
    {
        proof {
            use_type_invariant(&*self);
        }
        if positional_contains(&self.parameter, &name) {
            return Err(CommandLineError::DuplicateName);
        }
        match positional_last(&self.parameter) {
            Some(last) => {
                if last.effective_max_occurrence() > 1 {
                    return Err(CommandLineError::InvalidDeclaration);
                }
            },
            None => {},
        }
        let p = match MandatoryParameter::new(max_occurrence) {
            Ok(p) => p,
            Err(e) => {
                return Err(e);
            },
        };
        let ghost before = self@.parameters;
        let ghost key = name@;
        let mut parameter = positional_new();
        std::mem::swap(&mut parameter, &mut self.parameter);
        positional_insert(&mut parameter, name, p);
        proof {
            lemma_read_back(before, key, max_occurrence);
            let after = before.push((key, max_occurrence));
            assert forall|i: int| 0 <= i < after.len() - 1 implies effective_occurrence((#[trigger] after[i]).1) == 1 by {
                assert(after[i] == before[i]);
            }
            assert forall|i: int| 0 <= i < after.len() implies (#[trigger] after[i]).1 != Some(0u8) by {
                if i < before.len() {
                    assert(after[i] == before[i]);
                }
            }
        }
        self.parameter = parameter;
        Ok(())
    }

    /// Declares an action under `name`: the command line given, or an empty
    /// one. The action is owned by this command line from then on.
    pub fn add_action(&mut self, name: String, command_line: Option<CommandLine>) -> (r: Result<(), CommandLineError>)
        ensures
            r == Err::<(), _>(CommandLineError::DuplicateName) <==> has_name(old(self)@.actions, name@),
            r is Ok <==> !has_name(old(self)@.actions, name@),
            r is Ok ==> final(self)@ == old(self)@.with_action(name@, final(self)@.actions.last().1),
            r is Ok ==> (command_line matches Some(c) ==> final(self)@.actions.last().1 == c),
            r is Ok ==> (command_line is None ==> final(self)@.actions.last().1@ == CommandLineView::empty()),
            r is Err ==> final(self)@ == old(self)@,
            final(self)@.consistent(),
    {
        proof {
            use_type_invariant(&*self);
        }
        let ghost before = self@.actions;
        match position_of(&self.actions, &name) {
            Some(i) => {
                assert(before[i as int].0 == name@);
                return Err(CommandLineError::DuplicateName);
            },
            None => {
                assert forall|k: int| 0 <= k < before.len() implies (#[trigger] before[k]).0 != name@ by {
                    assert(before[k].0 == self.actions@[k].0@);
                }
            },
        }
        let cl = match command_line {
            Some(c) => c,
            None => CommandLine::new(),
        };
        let ghost key = name@;
        let ghost child = cl;
        let mut actions = Vec::new();
        std::mem::swap(&mut actions, &mut self.actions);
        actions.push((name, cl));
        proof {
            assert(action_entries(actions@) =~= before.push((key, child)));
            lemma_read_back(before, key, child);
        }
        self.actions = actions;
        Ok(())
    }

    /// The option declared under `name`, if any.
    pub fn option(&self, name: &String) -> (r: Option<&OptionalParameter>)
        ensures
            r is None <==> lookup(self@.options, name@) is None,
            r matches Some(p) ==> lookup(self@.options, name@) == Some(p@),
    {
        proof {
            use_type_invariant(self);
        }
        find_optional(&self.option, name)
    }

    /// The flag declared under `name`, if any.
    pub fn flag(&self, name: &String) -> (r: Option<&OptionalParameter>)
        ensures
            r is None <==> lookup(self@.flags, name@) is None,
            r matches Some(p) ==> lookup(self@.flags, name@) == Some(p@),
    {
        proof {
            use_type_invariant(self);
        }
        find_optional(&self.flag, name)
    }

    /// The action declared under `name`, if any.
    pub fn action(&self, name: &String) -> (r: Option<&CommandLine>)
        ensures
            r is None <==> lookup(self@.actions, name@) is None,
            r matches Some(c) ==> lookup(self@.actions, name@) == Some(*c),
    {
        proof {
            use_type_invariant(self);
        }
        let ghost entries = self@.actions;
        match position_of(&self.actions, name) {
            Some(i) => {
                proof {
                    assert(entries[i as int] == (self.actions@[i as int].0@, self.actions@[i as int].1));
                    lemma_lookup_at(entries, i as int);
                }
                Some(&self.actions[i].1)
            },
            None => {
                assert forall|k: int| 0 <= k < entries.len() implies (#[trigger] entries[k]).0 != name@ by {
                    assert(entries[k].0 == self.actions@[k].0@);
                }
                None
            },
        }
    }

    /// How many positional parameters are declared.
    pub fn parameter_count(&self) -> (r: usize)
        ensures
            r == self@.parameters.len(),
    {
        positional_len(&self.parameter)
    }

    /// The positional parameter at `index` in the order of declaration, with
    /// its name.
    pub fn parameter_at(&self, index: usize) -> (r: Option<(String, MandatoryParameter)>)
        ensures
            r is None <==> index >= self@.parameters.len(),
            r matches Some(e) ==> self@.parameters[index as int] == (e.0@, e.1@),
    {
        positional_at(&self.parameter, index)
    }

    /// The positional parameter declared under `name`, if any.
    pub fn parameter(&self, name: &String) -> (r: Option<MandatoryParameter>)
        ensures
            r is None <==> lookup(self@.parameters, name@) is None,
            r matches Some(p) ==> lookup(self@.parameters, name@) == Some(p@),
    {
        proof {
            use_type_invariant(self);
        }
        let ghost entries = self@.parameters;
        let n = positional_len(&self.parameter);
        let mut i: usize = 0;
        while i < n
            invariant
                n == entries.len(),
                i <= n,
                entries == self@.parameters,
                unique_names(entries),
                forall|k: int| 0 <= k < i ==> (#[trigger] entries[k]).0 != name@,
            decreases n - i,
        {
            match positional_at(&self.parameter, i) {
                Some(e) => {
                    if e.0 == *name {
                        proof {
                            lemma_lookup_at(entries, i as int);
                        }
                        return Some(e.1);
                    }
                },
                None => {},
            }
            i += 1;
        }
        None
    }

    /// The names of the positional parameters in the order of declaration.
    pub fn parameter_names(&self) -> (r: Vec<String>)
        ensures
            r@.len() == self@.parameters.len(),
            forall|i: int| 0 <= i < r@.len() ==> (#[trigger] r@[i])@ == self@.parameters[i].0,
    {
        let n = positional_len(&self.parameter);
        let mut names: Vec<String> = Vec::new();
        let mut i: usize = 0;
        while i < n
            invariant
                n == self@.parameters.len(),
                i <= n,
                names@.len() == i,
                forall|k: int| 0 <= k < i ==> (#[trigger] names@[k])@ == self@.parameters[k].0,
            decreases n - i,
        {
            match positional_at(&self.parameter, i) {
                Some(e) => {
                    names.push(e.0);
                },
                None => {},
            }
            i += 1;
        }
        names
    }
}

} // verus!
