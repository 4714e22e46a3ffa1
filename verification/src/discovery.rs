//! Collection of the native methods of a class and of the functions for them.
//!
//! The methods are found one by one. For each the caller looks up the function
//! and hands back its address; the collection goes on as long as there is one.
use crate::jvm;
use crate::jvm::{JavaObject, Jvm};
use crate::native_registry;
use crate::native_registry::{register_natives_for_class, symbol_name, Binding};
use crate::reflection;
use crate::reflection::{class_methods, next_native_method, ClassMethods, NativeMethod};
use vstd::prelude::*;

verus! {

/// The place to look for the next native method from.
pub open spec fn next_place(found: Seq<NativeMethod>) -> i32 {
    if found.len() == 0 {
        0
    } else {
        (found.last().index + 1) as i32
    }
}

/// The binding is of this method.
pub open spec fn binds(binding: Binding, method: NativeMethod) -> bool {
    binding.name == method.name && binding.signature == method.signature
}

/// The methods `found` are what the machine's answers come to, each from the place
/// behind the one before it on.
pub open spec fn found_so(
    count: i32,
    answers: Seq<reflection::MethodAnswers>,
    found: Seq<NativeMethod>,
) -> bool
    decreases found.len(),
{
    &&& answers.len() == found.len()
    &&& found.len() > 0 ==> {
        let first = next_place(found.drop_last());
        &&& found_so(count, answers.drop_last(), found.drop_last())
        &&& reflection::answers_fit(first, count, answers.last())
        &&& reflection::method_of(first, answers.last(), found.last())
    }
}

/// The native methods of a class that were found so far, and the addresses of
/// their functions.
pub struct Discovery<'local> {
    class: ClassMethods<'local>,
    next: i32,
    pending: Option<NativeMethod>,
    bindings: Vec<Binding>,
    found: Ghost<Seq<NativeMethod>>,
    answers: Ghost<Seq<reflection::MethodAnswers>>,
}

impl<'local> Discovery<'local> {
    /// The class.
    pub closed spec fn class(self) -> ClassMethods<'local> {
        self.class
    }

    /// The native methods that were found, in order.
    pub closed spec fn found(self) -> Seq<NativeMethod> {
        self.found@
    }

    /// What the machine answered in finding each of them.
    pub closed spec fn answers(self) -> Seq<reflection::MethodAnswers> {
        self.answers@
    }

    /// The native methods whose functions were looked up.
    pub closed spec fn bindings(self) -> Seq<Binding> {
        self.bindings@
    }

    /// The function of the method that was found last is still to be looked up.
    pub closed spec fn waiting(self) -> bool {
        self.pending is Some
    }

    /// The fields agree with each other.
    pub closed spec fn consistent(self) -> bool {
        &&& self.next == next_place(self.found@)
        &&& self.next >= 0
        &&& self.pending is Some ==> self.found@.len() > 0 && self.pending->Some_0
            == self.found@.last()
    }

    /// The methods are what the machine's answers come to, and there is a binding
    /// for each method whose function was looked up, in order.
    pub open spec fn wf(self) -> bool {
        &&& self.class().wf()
        &&& self.consistent()
        &&& found_so(self.class().count(), self.answers(), self.found())
        &&& self.bindings().len() == self.found().len() - (if self.waiting() {
            1int
        } else {
            0
        })
        &&& forall|i: int|
            0 <= i < self.bindings().len() ==> binds(
                #[trigger] self.bindings()[i],
                self.found()[i],
            )
    }

    /// Starts with the methods of a class.
    pub fn begin(jvm: &mut Jvm<'local>, class: &JavaObject<'local>) -> (started: Result<
        Discovery<'local>,
        String,
    >)
        requires
            jvm::quiet(old(jvm)@),
        ensures
            final(jvm).attachment() == old(jvm).attachment(),
            old(jvm)@.is_prefix_of(final(jvm)@),
            reflection::class_read(
                old(jvm)@.len() as int,
                class.number(),
                final(jvm)@.skip(old(jvm)@.len() as int),
                match started {
                    Ok(discovery) => Ok(discovery.class()),
                    Err(message) => Err(message),
                },
            ),
            started matches Ok(discovery) ==> discovery.wf() && !discovery.waiting()
                && discovery.found() == Seq::<NativeMethod>::empty(),
    {
        match class_methods(jvm, class) {
            Ok(class) => Ok(
                Discovery {
                    class,
                    next: 0,
                    pending: None,
                    bindings: Vec::new(),
                    found: Ghost(Seq::empty()),
                    answers: Ghost(Seq::empty()),
                },
            ),
            Err(message) => Err(message),
        }
    }

    /// Returns the fully qualified name of the class.
    pub fn class_name(&self) -> (name: &str)
        ensures
            name@ == self.class().class_name(),
    {
        self.class.name()
    }

    /// Finds the next native method and returns the name of the function for it.
    pub fn advance(&mut self, jvm: &mut Jvm<'local>) -> (symbol: Result<Option<String>, String>)
        requires
            old(self).wf(),
            !old(self).waiting(),
            jvm::quiet(old(jvm)@),
        ensures
            final(self).wf(),
            final(self).class() == old(self).class(),
            final(self).bindings() == old(self).bindings(),
            final(jvm).attachment() == old(jvm).attachment(),
            old(jvm)@.is_prefix_of(final(jvm)@),
            final(self).waiting() <==> symbol matches Ok(Some(_)),
            final(self).waiting() ==> {
                &&& final(self).found().len() == old(self).found().len() + 1
                &&& final(self).found().drop_last() == old(self).found()
                &&& final(self).answers().drop_last() == old(self).answers()
                &&& final(jvm)@.skip(old(jvm)@.len() as int) == reflection::method_steps(
                    old(jvm)@.len() as int,
                    old(self).class().number(),
                    next_place(old(self).found()),
                    final(self).answers().last(),
                )
                &&& symbol->Ok_0->Some_0@ == native_registry::symbol_text(
                    old(self).class().class_name(),
                    final(self).found().last().name@,
                )
            },
            !final(self).waiting() ==> final(self).found() == old(self).found()
                && final(self).answers() == old(self).answers(),
            reflection::method_read(
                old(jvm)@.len() as int,
                old(self).class(),
                next_place(old(self).found()),
                final(jvm)@.skip(old(jvm)@.len() as int),
                match symbol {
                    Ok(Some(_)) => Ok(Some(final(self).found().last())),
                    Ok(None) => Ok(None),
                    Err(reason) => Err(reason),
                },
            ),
    {
        match next_native_method(jvm, &self.class, self.next) {
            Err(reason) => Err(reason),
            Ok(None) => Ok(None),
            Ok(Some(method)) => {
                let symbol = symbol_name(self.class.name(), method.name.as_str());
                let ghost steps = jvm@.skip(old(jvm)@.len() as int);
                let ghost answers = choose|answers: reflection::MethodAnswers|
                    reflection::answers_fit(self.next, self.class.count(), answers)
                        && reflection::method_of(self.next, answers, method) && steps
                        == #[trigger] reflection::method_steps(
                        old(jvm)@.len() as int,
                        self.class.number(),
                        self.next,
                        answers,
                    );
                self.next = method.index + 1;
                self.found = Ghost(self.found@.push(method));
                self.answers = Ghost(self.answers@.push(answers));
                self.pending = Some(method);
                assert(self.found().drop_last() =~= old(self).found());
                assert(self.answers().drop_last() =~= old(self).answers());
                Ok(Some(symbol))
            },
        }
    }

    /// Takes the address of the function that was looked up, 0 for none. Says
    /// whether the collection goes on.
    pub fn look_up(&mut self, address: usize) -> (goes_on: bool)
        requires
            old(self).wf(),
            old(self).waiting(),
        ensures
            final(self).wf(),
            !final(self).waiting(),
            final(self).class() == old(self).class(),
            final(self).found() == old(self).found(),
            final(self).answers() == old(self).answers(),
            final(self).bindings().len() == old(self).bindings().len() + 1,
            final(self).bindings().drop_last() == old(self).bindings(),
            final(self).bindings().last().address == address,
            goes_on == (address != 0),
    {
        if let Some(method) = self.pending.take() {
            let NativeMethod { name, signature, .. } = method;
            self.bindings.push(Binding { name, signature, address });
        }
        assert(self.bindings().drop_last() =~= old(self).bindings());
        address != 0
    }

    /// Makes the table that the class is bound by.
    pub fn table(&self) -> (table: Result<Vec<Binding>, String>)
        requires
            self.wf(),
        ensures
            native_registry::table_of(self.class().class_name(), self.bindings(), table),
    {
        register_natives_for_class(self.class.name(), &self.bindings)
    }
}

/// The places of the native methods among methods with these modifiers.
pub open spec fn native_places(modifiers: Seq<i32>) -> Seq<int>
    decreases modifiers.len(),
{
    if modifiers.len() == 0 {
        seq![]
    } else {
        let earlier = native_places(modifiers.drop_last());
        if native_registry::native(modifiers.last()) {
            earlier.push(modifiers.len() - 1)
        } else {
            earlier
        }
    }
}

/// The places of methods.
pub open spec fn places(methods: Seq<NativeMethod>) -> Seq<int> {
    methods.map_values(|method: NativeMethod| method.index as int)
}

/// The modifiers of the methods up to the last one that was found.
pub open spec fn modifiers_up_to(methods: Seq<reflection::MethodAnswers>) -> Seq<i32>
    decreases methods.len(),
{
    if methods.len() == 0 {
        seq![]
    } else {
        modifiers_up_to(methods.drop_last()) + methods.last().modifiers
    }
}

/// The places of native methods behind others that are not native.
proof fn lemma_places_behind(earlier: Seq<i32>, more: Seq<i32>)
    requires
        forall|i: int| 0 <= i < more.len() ==> !native_registry::native(#[trigger] more[i]),
    ensures
        native_places(earlier + more) == native_places(earlier),
    decreases more.len(),
{
    if more.len() == 0 {
        assert(earlier + more =~= earlier);
    } else {
        assert((earlier + more).drop_last() =~= earlier + more.drop_last());
        assert forall|i: int| 0 <= i < more.drop_last().len() implies !native_registry::native(
            #[trigger] more.drop_last()[i],
        ) by {
            assert(more.drop_last()[i] == more[i]);
        }
        lemma_places_behind(earlier, more.drop_last());
        assert((earlier + more).last() == more[more.len() - 1]);
    }
}

/// The methods that were found are the native ones up to there.
proof fn lemma_found_are_native(
    count: i32,
    answers: Seq<reflection::MethodAnswers>,
    found: Seq<NativeMethod>,
)
    requires
        found_so(count, answers, found),
    ensures
        places(found) == native_places(modifiers_up_to(answers)),
        modifiers_up_to(answers).len() == next_place(found),
        0 <= next_place(found),
        found.len() > 0 ==> next_place(found) <= count,
    decreases found.len(),
{
    if found.len() == 0 {
        assert(places(found) =~= native_places(modifiers_up_to(answers)));
    } else {
        let head = found.drop_last();
        lemma_found_are_native(count, answers.drop_last(), head);
        let earlier = modifiers_up_to(answers.drop_last());
        let more = answers.last().modifiers;
        let all = earlier + more;
        assert(all.drop_last() =~= earlier + more.drop_last());
        assert forall|i: int| 0 <= i < more.drop_last().len() implies !native_registry::native(
            #[trigger] more.drop_last()[i],
        ) by {
            assert(more.drop_last()[i] == more[i]);
        }
        lemma_places_behind(earlier, more.drop_last());
        assert(places(found) =~= places(head).push(found.last().index as int));
    }
}

/// When no native method is left, where `left` are the modifiers of the methods
/// behind the last one that was found, those that were found are all native
/// methods of the class, in the order in which the class declares them, and if
/// each has a function the table binds exactly these.
pub proof fn law_all_native_methods_are_bound(
    discovery: Discovery<'_>,
    left: Seq<i32>,
    table: Result<Vec<Binding>, String>,
)
    requires
        discovery.wf(),
        !discovery.waiting(),
        reflection::none_left(
            next_place(discovery.found()),
            discovery.class().count(),
            left,
        ),
        native_registry::table_of(discovery.class().class_name(), discovery.bindings(), table),
    ensures
        ({
            let modifiers = modifiers_up_to(discovery.answers()) + left;
            &&& modifiers.len() == reflection::counted(discovery.class().count())
            &&& places(discovery.found()) == native_places(modifiers)
        }),
        native_registry::complete(discovery.bindings()) ==> table is Ok && table->Ok_0@
            == discovery.bindings() && table->Ok_0@.len() == discovery.found().len() && forall|
            i: int,
        |
            0 <= i < discovery.found().len() ==> (#[trigger] table->Ok_0@[i]).name
                == discovery.found()[i].name && table->Ok_0@[i].signature
                == discovery.found()[i].signature && table->Ok_0@[i].address != 0,
{
    lemma_found_are_native(discovery.class().count(), discovery.answers(), discovery.found());
    lemma_places_behind(modifiers_up_to(discovery.answers()), left);
}

/// A method that is not native is at no place of a native one.
pub proof fn law_only_native_methods_are_found(modifiers: Seq<i32>, i: int)
    requires
        0 <= i < native_places(modifiers).len(),
    ensures
        0 <= native_places(modifiers)[i] < modifiers.len(),
        native_registry::native(modifiers[native_places(modifiers)[i]]),
        forall|k: int| 0 <= k < i ==> #[trigger] native_places(modifiers)[k] < native_places(
            modifiers,
        )[i],
    decreases modifiers.len(),
{
    let earlier = native_places(modifiers.drop_last());
    if i < earlier.len() {
        law_only_native_methods_are_found(modifiers.drop_last(), i);
    } else {
        assert forall|k: int| 0 <= k < i implies #[trigger] native_places(modifiers)[k]
            < native_places(modifiers)[i] by {
            law_only_native_methods_are_found(modifiers.drop_last(), k);
        }
    }
}

/// Every native method is at one of the places.
pub proof fn law_every_native_method_is_found(modifiers: Seq<i32>, place: int)
    requires
        0 <= place < modifiers.len(),
        native_registry::native(modifiers[place]),
    ensures
        native_places(modifiers).contains(place),
    decreases modifiers.len(),
{
    let earlier = native_places(modifiers.drop_last());
    if place == modifiers.len() - 1 {
        assert(native_places(modifiers)[earlier.len() as int] == place);
    } else {
        assert(modifiers.drop_last()[place] == modifiers[place]);
        law_every_native_method_is_found(modifiers.drop_last(), place);
        let i = choose|i: int| 0 <= i < earlier.len() && earlier[i] == place;
        assert(native_places(modifiers)[i] == place);
    }
}

} // verus!
