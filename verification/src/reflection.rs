//! Native methods of Java classes, found by reflection.
use crate::jvm;
use crate::jvm::{JavaObject, Jvm, JvmStep};
use crate::native_registry;
use crate::native_registry::{is_native, spell_signature};
use vstd::prelude::*;
use vstd::string::*;

verus! {

/// What is exchanged with the machine, from place `base` of the record on, when
/// a method of an object is called that gives a text, and the text is read.
pub open spec fn text_steps(base: int, object: int, method: Seq<char>, answer: String) -> Seq<
    JvmStep,
> {
    seq![
        JvmStep::CallObject(object, method, "()Ljava/lang/String;"@, Ok(())),
        JvmStep::Text(base, Ok(answer)),
    ]
}

/// `answer` is what calling a method that gives a text comes to in the exchange
/// `steps`, which starts at place `base` of the record.
pub open spec fn text_read(
    base: int,
    object: int,
    method: Seq<char>,
    steps: Seq<JvmStep>,
    answer: Result<String, String>,
) -> bool {
    match answer {
        Ok(given) => steps == text_steps(base, object, method, given),
        Err(reason) => exists|given: String|
            jvm::cut_short(steps, #[trigger] text_steps(base, object, method, given), reason@),
    }
}

/// Calls a method without arguments that gives a text.
fn get_string_from_obj<'local>(
    jvm: &mut Jvm<'local>,
    object: &JavaObject<'local>,
    method: &str,
) -> (answer: Result<String, String>)
    requires
        jvm::quiet(old(jvm)@),
    ensures
        final(jvm).attachment() == old(jvm).attachment(),
        old(jvm)@.is_prefix_of(final(jvm)@),
        text_read(
            old(jvm)@.len() as int,
            object.number(),
            method@,
            final(jvm)@.skip(old(jvm)@.len() as int),
            answer,
        ),
{
    let ghost base = jvm@.len() as int;
    let ghost whole = text_steps(base, object.number(), method@, arbitrary());
    match jvm::call_object(jvm, object, method, "()Ljava/lang/String;") {
        Err(reason) => {
            proof {
                let failed = jvm@.last();
                jvm::lemma_cut_here(seq![], failed, whole, reason@);
                assert(jvm@.skip(base) =~= Seq::<JvmStep>::empty().push(failed));
            }
            Err(reason)
        },
        Ok(string) => {
            let answer = jvm::read_text(jvm, &string);
            proof {
                if answer is Ok {
                    assert(jvm@.skip(base) =~= text_steps(
                        base,
                        object.number(),
                        method@,
                        answer->Ok_0,
                    ));
                } else {
                    let head = seq![whole[0]];
                    assert(head =~= whole.take(1));
                    jvm::lemma_cut_here(head, jvm@.last(), whole, answer->Err_0@);
                    assert(jvm@.skip(base) =~= head.push(jvm@.last()));
                }
            }
            answer
        },
    }
}

/// Returns the fully qualified name of a class.
pub fn get_class_name<'local>(jvm: &mut Jvm<'local>, class: &JavaObject<'local>) -> (name: Result<
    String,
    String,
>)
    requires
        jvm::quiet(old(jvm)@),
    ensures
        final(jvm).attachment() == old(jvm).attachment(),
        old(jvm)@.is_prefix_of(final(jvm)@),
        text_read(
            old(jvm)@.len() as int,
            class.number(),
            "getName"@,
            final(jvm)@.skip(old(jvm)@.len() as int),
            name,
        ),
{
    get_string_from_obj(jvm, class, "getName")
}

/// Returns a text that a method of an object gives.
fn get_string<'local>(
    jvm: &mut Jvm<'local>,
    object: &JavaObject<'local>,
    method: &str,
) -> (answer: Result<String, String>)
    requires
        jvm::quiet(old(jvm)@),
    ensures
        final(jvm).attachment() == old(jvm).attachment(),
        old(jvm)@.is_prefix_of(final(jvm)@),
        text_read(
            old(jvm)@.len() as int,
            object.number(),
            method@,
            final(jvm)@.skip(old(jvm)@.len() as int),
            answer,
        ),
{
    get_string_from_obj(jvm, object, method)
}

/// What is exchanged with the machine, from place `base` of the record on, in
/// reading the names of the classes in an array, one after the other.
pub open spec fn names_steps(base: int, array: int, names: Seq<String>) -> Seq<JvmStep>
    decreases names.len(),
{
    if names.len() == 0 {
        seq![]
    } else {
        let last = names.len() - 1;
        let element = base + 3 * last;
        names_steps(base, array, names.drop_last()) + seq![
            JvmStep::Element(array, last as i32, Ok(())),
        ] + text_steps(element + 1, element, "getName"@, names.last())
    }
}

/// Three requests are made for each class in an array.
proof fn lemma_names_steps(base: int, array: int, names: Seq<String>)
    ensures
        names_steps(base, array, names).len() == 3 * names.len(),
        names.len() > 0 ==> jvm::failure_of(names_steps(base, array, names).last()) is None,
    decreases names.len(),
{
    if names.len() > 0 {
        lemma_names_steps(base, array, names.drop_last());
    }
}

/// The names of the first classes are read first.
proof fn lemma_names_prefix(base: int, array: int, names: Seq<String>, more: Seq<String>)
    ensures
        names_steps(base, array, names).is_prefix_of(names_steps(base, array, names + more)),
    decreases more.len(),
{
    if more.len() == 0 {
        assert(names + more =~= names);
    } else {
        lemma_names_prefix(base, array, names, more.drop_last());
        assert((names + more).drop_last() =~= names + more.drop_last());
    }
}

/// As many as a length says, none if it is negative.
pub open spec fn counted(length: i32) -> int {
    if length < 0 {
        0
    } else {
        length as int
    }
}

/// `names` is what reading the names of the classes in an array comes to in the
/// exchange `steps`, which starts at place `base` of the record.
pub open spec fn names_read(
    base: int,
    array: int,
    length: i32,
    steps: Seq<JvmStep>,
    names: Result<Vec<String>, String>,
) -> bool {
    match names {
        Ok(given) => given@.len() == counted(length) && steps == names_steps(base, array, given@),
        Err(reason) => exists|given: Seq<String>|
            given.len() == counted(length) && jvm::cut_short(
                steps,
                #[trigger] names_steps(base, array, given),
                reason@,
            ),
    }
}

/// An exchange that is cut short at a name is so within the reading of all names.
proof fn lemma_names_cut(
    base: int,
    array: int,
    length: i32,
    names: Seq<String>,
    steps: Seq<JvmStep>,
    reason: Seq<char>,
)
    requires
        0 < names.len() <= counted(length),
        jvm::cut_short(steps, names_steps(base, array, names), reason),
    ensures
        exists|given: Seq<String>|
            given.len() == counted(length) && jvm::cut_short(
                steps,
                #[trigger] names_steps(base, array, given),
                reason,
            ),
{
    let more = Seq::<String>::new((counted(length) - names.len()) as nat, |i: int| arbitrary());
    lemma_names_prefix(base, array, names, more);
    jvm::lemma_cut_longer(
        steps,
        names_steps(base, array, names),
        names_steps(base, array, names + more),
        reason,
    );
}

/// Reads the names of the classes in an array.
fn read_names<'local>(jvm: &mut Jvm<'local>, array: &JavaObject<'local>, length: i32) -> (names:
    Result<Vec<String>, String>)
    requires
        array.array(),
        jvm::quiet(old(jvm)@),
    ensures
        final(jvm).attachment() == old(jvm).attachment(),
        old(jvm)@.is_prefix_of(final(jvm)@),
        names_read(
            old(jvm)@.len() as int,
            array.number(),
            length,
            final(jvm)@.skip(old(jvm)@.len() as int),
            names,
        ),
{
    let ghost before = jvm@;
    let ghost base = jvm@.len() as int;
    let mut names: Vec<String> = Vec::new();
    let mut i: i32 = 0;
    assert(jvm@ =~= before + names_steps(base, array.number(), names@));
    while i < length
        invariant
            0 <= i <= counted(length),
            names@.len() == i,
            array.array(),
            before == old(jvm)@,
            base == before.len(),
            jvm.attachment() == old(jvm).attachment(),
            jvm@ == before + names_steps(base, array.number(), names@),
            jvm::quiet(jvm@),
        decreases length - i,
    {
        let ghost head = names_steps(base, array.number(), names@);
        proof {
            lemma_names_steps(base, array.number(), names@);
        }
        let class = match jvm::array_element(jvm, array, i) {
            Ok(class) => class,
            Err(reason) => {
                proof {
                    let given = names@.push(arbitrary());
                    assert(given.drop_last() =~= names@);
                    let whole = names_steps(base, array.number(), given);
                    assert(head =~= whole.take(head.len() as int));
                    jvm::lemma_cut_here(head, jvm@.last(), whole, reason@);
                    assert(jvm@.skip(base) =~= head.push(jvm@.last()));
                    lemma_names_cut(
                        base,
                        array.number(),
                        length,
                        given,
                        jvm@.skip(base),
                        reason@,
                    );
                }
                return Err(reason);
            },
        };
        let ghost taken = jvm@;
        let ghost opened = head.push(JvmStep::Element(array.number(), i, Ok(())));
        assert(taken =~= before + opened);
        match get_string_from_obj(jvm, &class, "getName") {
            Ok(name) => {
                let ghost earlier = names@;
                names.push(name);
                i += 1;
                assert(names@.drop_last() =~= earlier);
                proof {
                    jvm::lemma_goes_on(before, taken, jvm@);
                    assert(taken.skip(base) =~= opened);
                }
                assert(jvm@ =~= before + jvm@.skip(base));
                assert(jvm@ =~= before + names_steps(base, array.number(), names@));
            },
            Err(reason) => {
                proof {
                    let rest = jvm@.skip(taken.len() as int);
                    let given = choose|given: String|
                        jvm::cut_short(
                            rest,
                            #[trigger] text_steps(
                                taken.len() as int,
                                class.number(),
                                "getName"@,
                                given,
                            ),
                            reason@,
                        );
                    let read = text_steps(taken.len() as int, class.number(), "getName"@, given);
                    let all = names@.push(given);
                    assert(all.drop_last() =~= names@);
                    assert(names_steps(base, array.number(), all) =~= opened + read);
                    jvm::lemma_cut_later(opened, rest, read, reason@);
                    jvm::lemma_goes_on(before, taken, jvm@);
                    assert(taken.skip(base) =~= opened);
                    lemma_names_cut(base, array.number(), length, all, jvm@.skip(base), reason@);
                }
                return Err(reason);
            },
        }
    }
    assert(jvm@.skip(base) =~= names_steps(base, array.number(), names@));
    Ok(names)
}

/// What is exchanged with the machine, from place `base` of the record on, in
/// reading the types that a method takes and returns.
pub open spec fn signature_steps(
    base: int,
    method: int,
    length: i32,
    parameters: Seq<String>,
    returned: String,
) -> Seq<JvmStep> {
    types_opening(base, method, length) + names_steps(base + 2, base, parameters)
        + returned_steps(base + 2 + 3 * parameters.len(), method, returned)
}

/// What is exchanged with the machine first in reading types.
pub open spec fn types_opening(base: int, method: int, length: i32) -> Seq<JvmStep> {
    seq![
        JvmStep::CallObject(method, "getParameterTypes"@, "()[Ljava/lang/Class;"@, Ok(())),
        JvmStep::Length(base, Ok(length)),
    ]
}

/// What is exchanged with the machine, from place `base` of the record on, in
/// reading the type that a method returns.
pub open spec fn returned_steps(base: int, method: int, returned: String) -> Seq<JvmStep> {
    seq![JvmStep::CallObject(method, "getReturnType"@, "()Ljava/lang/Class;"@, Ok(()))]
        + text_steps(base + 1, base, "getName"@, returned)
}

/// The types of a method that are read.
pub struct Types {
    /// How many types the method takes, as the machine answers it.
    pub length: i32,
    /// The names of the types that the method takes.
    pub parameters: Seq<String>,
    /// The name of the type that the method returns.
    pub returned: String,
}

/// There are as many names as the machine says that there are types.
pub open spec fn types_fit(types: Types) -> bool {
    types.parameters.len() == counted(types.length)
}

/// What is exchanged with the machine in reading these types.
pub open spec fn types_steps(base: int, method: int, types: Types) -> Seq<JvmStep> {
    signature_steps(base, method, types.length, types.parameters, types.returned)
}

/// `signature` is what reading the types of a method comes to in the exchange
/// `steps`, which starts at place `base` of the record.
pub open spec fn signature_read(
    base: int,
    method: int,
    steps: Seq<JvmStep>,
    signature: Result<String, String>,
) -> bool {
    match signature {
        Ok(spelled) => exists|types: Types|
            types_fit(types) && steps == #[trigger] types_steps(base, method, types) && spelled@
                == native_registry::signature_text(types.parameters, types.returned@),
        Err(reason) => exists|types: Types|
            types_fit(types) && jvm::cut_short(
                steps,
                #[trigger] types_steps(base, method, types),
                reason@,
            ),
    }
}

/// `signature` is what reading the type that a method returns comes to, where
/// `returned` is the name of that type if it was read.
pub open spec fn returned_read(
    base: int,
    method: int,
    parameters: Seq<String>,
    steps: Seq<JvmStep>,
    signature: Result<String, String>,
    returned: String,
) -> bool {
    match signature {
        Ok(spelled) => steps == returned_steps(base, method, returned) && spelled@
            == native_registry::signature_text(parameters, returned@),
        Err(reason) => jvm::cut_short(steps, returned_steps(base, method, returned), reason@),
    }
}

/// Reads the type that a method returns and spells its signature, with the types
/// that it takes.
fn read_returned<'local>(
    jvm: &mut Jvm<'local>,
    method: &JavaObject<'local>,
    parameters: &Vec<String>,
) -> (signature: Result<String, String>)
    requires
        jvm::quiet(old(jvm)@),
    ensures
        final(jvm).attachment() == old(jvm).attachment(),
        old(jvm)@.is_prefix_of(final(jvm)@),
        exists|returned: String|
            returned_read(
                old(jvm)@.len() as int,
                method.number(),
                parameters@,
                final(jvm)@.skip(old(jvm)@.len() as int),
                signature,
                returned,
            ),
{
    let ghost before = jvm@;
    let ghost base = jvm@.len() as int;
    let class = match jvm::call_object(jvm, method, "getReturnType", "()Ljava/lang/Class;") {
        Ok(class) => class,
        Err(reason) => {
            proof {
                let returned = arbitrary::<String>();
                let whole = returned_steps(base, method.number(), returned);
                jvm::lemma_cut_here(seq![], jvm@.last(), whole, reason@);
                assert(jvm@.skip(base) =~= Seq::<JvmStep>::empty().push(jvm@.last()));
                assert(returned_read(
                    base,
                    method.number(),
                    parameters@,
                    jvm@.skip(base),
                    Err(reason),
                    returned,
                ));
            }
            return Err(reason);
        },
    };
    let ghost typed = jvm@;
    let ghost head = seq![
        JvmStep::CallObject(method.number(), "getReturnType"@, "()Ljava/lang/Class;"@, Ok(())),
    ];
    assert(typed.skip(base) =~= head);
    assert(before.is_prefix_of(typed));
    let name = get_string_from_obj(jvm, &class, "getName");
    proof {
        jvm::lemma_goes_on(before, typed, jvm@);
    }
    let ghost rest = jvm@.skip(typed.len() as int);
    match name {
        Ok(returned) => {
            let signature = Ok(spell_signature(parameters, returned.as_str()));
            assert(returned_read(
                base,
                method.number(),
                parameters@,
                jvm@.skip(base),
                signature,
                returned,
            ));
            signature
        },
        Err(reason) => {
            proof {
                let given = choose|given: String|
                    jvm::cut_short(
                        rest,
                        #[trigger] text_steps(base + 1, base, "getName"@, given),
                        reason@,
                    );
                let read = text_steps(base + 1, base, "getName"@, given);
                jvm::lemma_cut_later(head, rest, read, reason@);
                assert(returned_read(
                    base,
                    method.number(),
                    parameters@,
                    jvm@.skip(base),
                    Err(reason),
                    given,
                ));
            }
            Err(reason)
        },
    }
}

/// Builds the signature of a method from the types it takes and returns.
fn build_jni_signature<'local>(jvm: &mut Jvm<'local>, method: &JavaObject<'local>) -> (signature:
    Result<String, String>)
    requires
        jvm::quiet(old(jvm)@),
    ensures
        final(jvm).attachment() == old(jvm).attachment(),
        old(jvm)@.is_prefix_of(final(jvm)@),
        signature_read(
            old(jvm)@.len() as int,
            method.number(),
            final(jvm)@.skip(old(jvm)@.len() as int),
            signature,
        ),
{
    proof {
        reveal_strlit("()[Ljava/lang/Class;");
    }
    let ghost before = jvm@;
    let ghost base = jvm@.len() as int;
    let ghost bare = Types { length: 0, parameters: Seq::empty(), returned: arbitrary() };
    let ghost short = types_steps(base, method.number(), bare);
    let array = match jvm::call_object(jvm, method, "getParameterTypes", "()[Ljava/lang/Class;") {
        Ok(array) => array,
        Err(reason) => {
            proof {
                jvm::lemma_cut_here(seq![], jvm@.last(), short, reason@);
                assert(jvm@.skip(base) =~= Seq::<JvmStep>::empty().push(jvm@.last()));
            }
            return Err(reason);
        },
    };
    let length: i32 = match jvm::array_length(jvm, &array) {
        Ok(length) => length,
        Err(reason) => {
            proof {
                let head = seq![short[0]];
                assert(head =~= short.take(1));
                jvm::lemma_cut_here(head, jvm@.last(), short, reason@);
                assert(jvm@.skip(base) =~= head.push(jvm@.last()));
            }
            return Err(reason);
        },
    };
    let ghost opened = jvm@;
    let ghost head = opened.skip(base);
    proof {
        assert(before.is_prefix_of(opened));
        assert(head =~= types_opening(base, method.number(), length));
    }
    let parameters = match read_names(jvm, &array, length) {
        Ok(parameters) => parameters,
        Err(reason) => {
            proof {
                jvm::lemma_goes_on(before, opened, jvm@);
                let rest = jvm@.skip(opened.len() as int);
                let given = choose|given: Seq<String>|
                    given.len() == counted(length) && jvm::cut_short(
                        rest,
                        #[trigger] names_steps(base + 2, base, given),
                        reason@,
                    );
                let read = names_steps(base + 2, base, given);
                let types = Types { length, parameters: given, returned: arbitrary() };
                jvm::lemma_cut_later(head, rest, read, reason@);
                assert((head + read).is_prefix_of(types_steps(base, method.number(), types)));
                jvm::lemma_cut_longer(
                    head + rest,
                    head + read,
                    types_steps(base, method.number(), types),
                    reason@,
                );
            }
            return Err(reason);
        },
    };
    let ghost named = jvm@;
    let ghost listed = named.skip(base);
    proof {
        jvm::lemma_goes_on(before, opened, named);
        lemma_names_steps(base + 2, base, parameters@);
        assert(listed == head + names_steps(base + 2, base, parameters@));
        assert(named.last() == listed.last());
    }
    let signature = read_returned(jvm, method, &parameters);
    proof {
        jvm::lemma_goes_on(before, named, jvm@);
        let rest = jvm@.skip(named.len() as int);
        let returned = choose|returned: String|
            returned_read(
                named.len() as int,
                method.number(),
                parameters@,
                rest,
                signature,
                returned,
            );
        let types = Types { length, parameters: parameters@, returned };
        let read = returned_steps(named.len() as int, method.number(), returned);
        assert(types_steps(base, method.number(), types) =~= listed + read);
        if signature is Err {
            jvm::lemma_cut_later(listed, rest, read, signature->Err_0@);
        }
    }
    signature
}

/// The methods that a class declares.
pub struct ClassMethods<'local> {
    class_name: String,
    methods: JavaObject<'local>,
    count: i32,
}

impl<'local> ClassMethods<'local> {
    /// The fully qualified name of the class.
    pub closed spec fn class_name(self) -> Seq<char> {
        self.class_name@
    }

    /// The number of the array of methods in the record.
    pub closed spec fn number(self) -> int {
        self.methods.number()
    }

    /// How many methods there are.
    pub closed spec fn count(self) -> i32 {
        self.count
    }

    /// The methods are in an array.
    pub closed spec fn wf(self) -> bool {
        self.methods.array()
    }

    /// Returns the fully qualified name of the class.
    pub fn name(&self) -> (name: &str)
        ensures
            name@ == self.class_name(),
    {
        self.class_name.as_str()
    }
}

/// What is exchanged with the machine, from place `base` of the record on, in
/// reading the methods of a class.
pub open spec fn class_steps(base: int, class: int, name: String, count: i32) -> Seq<JvmStep> {
    text_steps(base, class, "getName"@, name) + seq![
        JvmStep::CallObject(
            class,
            "getDeclaredMethods"@,
            "()[Ljava/lang/reflect/Method;"@,
            Ok(()),
        ),
        JvmStep::Length(base + 2, Ok(count)),
    ]
}

/// `methods` is what reading the methods of a class comes to in the exchange
/// `steps`, which starts at place `base` of the record. The message for a failure
/// names the request if that was the one for the methods.
pub open spec fn class_read(
    base: int,
    class: int,
    steps: Seq<JvmStep>,
    methods: Result<ClassMethods<'_>, String>,
) -> bool {
    match methods {
        Ok(found) => {
            &&& found.wf()
            &&& found.number() == base + 2
            &&& exists|name: String|
                name@ == found.class_name() && steps == #[trigger] class_steps(
                    base,
                    class,
                    name,
                    found.count(),
                )
        },
        Err(message) => exists|name: String, count: i32, reason: Seq<char>| #[trigger]
            jvm::cut_short(steps, class_steps(base, class, name, count), reason) && message@
                == if steps.len() == 3 {
                "getDeclaredMethods: "@ + reason
            } else {
                reason
            },
    }
}

/// Finds the methods of a class by reflection.
pub fn class_methods<'local>(jvm: &mut Jvm<'local>, class: &JavaObject<'local>) -> (methods: Result<
    ClassMethods<'local>,
    String,
>)
    requires
        jvm::quiet(old(jvm)@),
    ensures
        final(jvm).attachment() == old(jvm).attachment(),
        old(jvm)@.is_prefix_of(final(jvm)@),
        class_read(
            old(jvm)@.len() as int,
            class.number(),
            final(jvm)@.skip(old(jvm)@.len() as int),
            methods,
        ),
{
    proof {
        reveal_strlit("()[Ljava/lang/reflect/Method;");
    }
    let ghost before = jvm@;
    let ghost base = jvm@.len() as int;
    let class_name = match get_class_name(jvm, class) {
        Ok(name) => name,
        Err(reason) => {
            proof {
                let steps = jvm@.skip(base);
                let given = choose|given: String|
                    jvm::cut_short(
                        steps,
                        #[trigger] text_steps(base, class.number(), "getName"@, given),
                        reason@,
                    );
                jvm::lemma_cut_longer(
                    steps,
                    text_steps(base, class.number(), "getName"@, given),
                    class_steps(base, class.number(), given, 0),
                    reason@,
                );
            }
            return Err(reason);
        },
    };
    let ghost named = jvm@;
    let ghost head = named.skip(base);
    assert(named.last() == head.last());
    let methods = match jvm::call_object(
        jvm,
        class,
        "getDeclaredMethods",
        "()[Ljava/lang/reflect/Method;",
    ) {
        Ok(methods) => methods,
        Err(reason) => {
            let mut message = "getDeclaredMethods: ".to_owned();
            message.append(reason.as_str());
            proof {
                let whole = class_steps(base, class.number(), class_name, 0);
                jvm::lemma_cut_here(head, jvm@.last(), whole, reason@);
                assert(jvm@.skip(base) =~= head.push(jvm@.last()));
            }
            return Err(message);
        },
    };
    let ghost listed = jvm@;
    match jvm::array_length(jvm, &methods) {
        Ok(count) => {
            let ghost name = class_name;
            let found = ClassMethods { class_name, methods, count };
            assert(name@ == found.class_name());
            assert(jvm@.skip(base) =~= class_steps(base, class.number(), name, found.count()));
            Ok(found)
        },
        Err(reason) => {
            proof {
                let whole = class_steps(base, class.number(), class_name, 0);
                let done = listed.skip(base);
                jvm::lemma_cut_here(done, jvm@.last(), whole, reason@);
                assert(jvm@.skip(base) =~= done.push(jvm@.last()));
            }
            Err(reason)
        },
    }
}

/// A native method of a class.
pub struct NativeMethod {
    /// Its place among the methods of the class.
    pub index: i32,
    pub name: String,
    pub signature: String,
}

/// What is exchanged with the machine, from place `base` of the record on, in
/// reading the modifiers of methods, from the method at `first` on.
pub open spec fn modifier_steps(base: int, methods: int, first: i32, modifiers: Seq<i32>) -> Seq<
    JvmStep,
>
    decreases modifiers.len(),
{
    if modifiers.len() == 0 {
        seq![]
    } else {
        let last = modifiers.len() - 1;
        modifier_steps(base, methods, first, modifiers.drop_last()) + seq![
            JvmStep::Element(methods, (first + last) as i32, Ok(())),
            JvmStep::CallInt(base + 2 * last, "getModifiers"@, "()I"@, Ok(modifiers.last())),
        ]
    }
}

/// Two requests are made for the modifiers of each method.
proof fn lemma_modifier_steps(base: int, methods: int, first: i32, modifiers: Seq<i32>)
    ensures
        modifier_steps(base, methods, first, modifiers).len() == 2 * modifiers.len(),
        modifiers.len() > 0 ==> jvm::failure_of(
            modifier_steps(base, methods, first, modifiers).last(),
        ) is None,
    decreases modifiers.len(),
{
    if modifiers.len() > 0 {
        lemma_modifier_steps(base, methods, first, modifiers.drop_last());
    }
}

/// What the machine answers of methods up to a native one.
pub struct MethodAnswers {
    /// The modifiers of the methods.
    pub modifiers: Seq<i32>,
    /// The name of the last of them, the native one.
    pub name: String,
    /// The types that it takes and returns.
    pub types: Types,
}

/// The last of the methods is native and no other, and there are so many methods
/// from `first` on.
pub open spec fn answers_fit(first: i32, count: i32, answers: MethodAnswers) -> bool {
    &&& answers.modifiers.len() > 0
    &&& native_registry::native(answers.modifiers.last())
    &&& forall|i: int|
        0 <= i < answers.modifiers.len() - 1 ==> !native_registry::native(
            #[trigger] answers.modifiers[i],
        )
    &&& first + answers.modifiers.len() <= count
    &&& types_fit(answers.types)
}

/// What is exchanged with the machine, from place `base` of the record on, in
/// finding a native method, from the method at `first` on.
pub open spec fn method_steps(base: int, methods: int, first: i32, answers: MethodAnswers) -> Seq<
    JvmStep,
> {
    let named = base + 2 * answers.modifiers.len();
    let object = named - 2;
    modifier_steps(base, methods, first, answers.modifiers) + text_steps(
        named,
        object,
        "getName"@,
        answers.name,
    ) + types_steps(named + 2, object, answers.types)
}

/// `found` is the native method that the machine answers so of.
pub open spec fn method_of(first: i32, answers: MethodAnswers, found: NativeMethod) -> bool {
    &&& found.index == first + answers.modifiers.len() - 1
    &&& found.name == answers.name
    &&& found.signature@ == native_registry::signature_text(
        answers.types.parameters,
        answers.types.returned@,
    )
}

/// `modifiers` are those of all methods from `first` on, and none is native.
pub open spec fn none_left(first: i32, count: i32, modifiers: Seq<i32>) -> bool {
    &&& modifiers.len() == (if first < count {
        count - first
    } else {
        0
    })
    &&& forall|i: int|
        0 <= i < modifiers.len() ==> !native_registry::native(#[trigger] modifiers[i])
}

/// `method` is what looking for the next native method of a class, from the one
/// at `first` on, comes to in the exchange `steps`, which starts at place `base`
/// of the record.
pub open spec fn method_read(
    base: int,
    class: ClassMethods<'_>,
    first: i32,
    steps: Seq<JvmStep>,
    method: Result<Option<NativeMethod>, String>,
) -> bool {
    match method {
        Ok(None) => exists|modifiers: Seq<i32>|
            none_left(first, class.count(), modifiers) && steps == #[trigger] modifier_steps(
                base,
                class.number(),
                first,
                modifiers,
            ),
        Ok(Some(found)) => exists|answers: MethodAnswers|
            answers_fit(first, class.count(), answers) && method_of(first, answers, found) && steps
                == #[trigger] method_steps(base, class.number(), first, answers),
        Err(reason) => exists|answers: MethodAnswers|
            answers_fit(first, class.count(), answers) && jvm::cut_short(
                steps,
                #[trigger] method_steps(base, class.number(), first, answers),
                reason@,
            ),
    }
}

/// The answers when the method behind these is native, and nothing more is known
/// of it.
spec fn supposed(modifiers: Seq<i32>) -> MethodAnswers {
    MethodAnswers {
        modifiers: modifiers.push(native_registry::NATIVE),
        name: arbitrary(),
        types: Types { length: 0, parameters: Seq::empty(), returned: arbitrary() },
    }
}

/// What is supposed of a method behind methods that are not native can be.
proof fn lemma_supposed(base: int, methods: int, first: i32, count: i32, modifiers: Seq<i32>)
    requires
        first + modifiers.len() < count,
        forall|i: int|
            0 <= i < modifiers.len() ==> !native_registry::native(#[trigger] modifiers[i]),
    ensures
        answers_fit(first, count, supposed(modifiers)),
        modifier_steps(base, methods, first, supposed(modifiers).modifiers).is_prefix_of(
            method_steps(base, methods, first, supposed(modifiers)),
        ),
        modifier_steps(base, methods, first, supposed(modifiers).modifiers) == modifier_steps(
            base,
            methods,
            first,
            modifiers,
        ) + seq![
            JvmStep::Element(methods, (first + modifiers.len()) as i32, Ok(())),
            JvmStep::CallInt(
                base + 2 * modifiers.len(),
                "getModifiers"@,
                "()I"@,
                Ok(native_registry::NATIVE),
            ),
        ],
{
    let answers = supposed(modifiers);
    assert(answers.modifiers.drop_last() =~= modifiers);
    assert(0x0100i32 & 0x0100i32 != 0) by (bit_vector);
}

/// Reads the name and the signature of a native method.
fn read_method<'local>(jvm: &mut Jvm<'local>, method: &JavaObject<'local>, index: i32) -> (found:
    Result<NativeMethod, String>)
    requires
        jvm::quiet(old(jvm)@),
    ensures
        final(jvm).attachment() == old(jvm).attachment(),
        old(jvm)@.is_prefix_of(final(jvm)@),
        exists|name: String, types: Types|
            pieces_read(
                old(jvm)@.len() as int,
                method.number(),
                index,
                name,
                types,
                final(jvm)@.skip(old(jvm)@.len() as int),
                found,
            ),
{
    let ghost before = jvm@;
    let ghost base = jvm@.len() as int;
    let ghost bare = Types { length: 0, parameters: Seq::empty(), returned: arbitrary() };
    let name = match get_string(jvm, method, "getName") {
        Ok(name) => name,
        Err(reason) => {
            proof {
                let steps = jvm@.skip(base);
                let given = choose|given: String|
                    jvm::cut_short(
                        steps,
                        #[trigger] text_steps(base, method.number(), "getName"@, given),
                        reason@,
                    );
                jvm::lemma_cut_longer(
                    steps,
                    text_steps(base, method.number(), "getName"@, given),
                    pieces_steps(base, method.number(), given, bare),
                    reason@,
                );
                assert(pieces_read(
                    base,
                    method.number(),
                    index,
                    given,
                    bare,
                    steps,
                    Err(reason),
                ));
            }
            return Err(reason);
        },
    };
    let ghost named = jvm@;
    let ghost head = named.skip(base);
    assert(named.last() == head.last());
    let answer = build_jni_signature(jvm, method);
    proof {
        jvm::lemma_goes_on(before, named, jvm@);
    }
    let ghost rest = jvm@.skip(named.len() as int);
    match answer {
        Ok(signature) => {
            let ghost spelled = signature;
            let ghost given = name;
            let found = Ok(NativeMethod { index, name, signature });
            proof {
                let types = choose|types: Types|
                    types_fit(types) && rest == #[trigger] types_steps(
                        base + 2,
                        method.number(),
                        types,
                    ) && spelled@ == native_registry::signature_text(
                        types.parameters,
                        types.returned@,
                    );
                assert(pieces_read(
                    base,
                    method.number(),
                    index,
                    given,
                    types,
                    jvm@.skip(base),
                    found,
                ));
            }
            found
        },
        Err(reason) => {
            proof {
                let types = choose|types: Types|
                    types_fit(types) && jvm::cut_short(
                        rest,
                        #[trigger] types_steps(base + 2, method.number(), types),
                        reason@,
                    );
                jvm::lemma_cut_later(
                    head,
                    rest,
                    types_steps(base + 2, method.number(), types),
                    reason@,
                );
                assert(pieces_read(
                    base,
                    method.number(),
                    index,
                    name,
                    types,
                    jvm@.skip(base),
                    Err(reason),
                ));
            }
            Err(reason)
        },
    }
}

/// What is exchanged with the machine, from place `base` of the record on, in
/// reading the name and the types of a method.
pub open spec fn pieces_steps(base: int, method: int, name: String, types: Types) -> Seq<JvmStep> {
    text_steps(base, method, "getName"@, name) + types_steps(base + 2, method, types)
}

/// `found` is what reading the name and the signature of a method comes to.
pub open spec fn pieces_read(
    base: int,
    method: int,
    index: i32,
    name: String,
    types: Types,
    steps: Seq<JvmStep>,
    found: Result<NativeMethod, String>,
) -> bool {
    &&& types_fit(types)
    &&& match found {
        Ok(native) => {
            &&& steps == pieces_steps(base, method, name, types)
            &&& native.index == index
            &&& native.name == name
            &&& native.signature@ == native_registry::signature_text(
                types.parameters,
                types.returned@,
            )
        },
        Err(reason) => jvm::cut_short(steps, pieces_steps(base, method, name, types), reason@),
    }
}

/// Finds the next native method of a class, from the method at `first` on.
pub fn next_native_method<'local>(
    jvm: &mut Jvm<'local>,
    class: &ClassMethods<'local>,
    first: i32,
) -> (method: Result<Option<NativeMethod>, String>)
    requires
        class.wf(),
        0 <= first,
        jvm::quiet(old(jvm)@),
    ensures
        final(jvm).attachment() == old(jvm).attachment(),
        old(jvm)@.is_prefix_of(final(jvm)@),
        method_read(
            old(jvm)@.len() as int,
            *class,
            first,
            final(jvm)@.skip(old(jvm)@.len() as int),
            method,
        ),
{
    let ghost before = jvm@;
    let ghost base = jvm@.len() as int;
    let mut index: i32 = first;
    let ghost mut modifiers: Seq<i32> = Seq::empty();
    assert(jvm@ =~= before + modifier_steps(base, class.number(), first, modifiers));
    while index < class.count
        invariant
            class.wf(),
            before == old(jvm)@,
            base == before.len(),
            jvm.attachment() == old(jvm).attachment(),
            0 <= first <= index,
            index <= class.count() || index == first,
            modifiers.len() == index - first,
            forall|i: int|
                0 <= i < modifiers.len() ==> !native_registry::native(#[trigger] modifiers[i]),
            jvm@ == before + modifier_steps(base, class.number(), first, modifiers),
            jvm::quiet(jvm@),
        decreases class.count - index,
    {
        let ghost head = modifier_steps(base, class.number(), first, modifiers);
        let ghost whole = method_steps(base, class.number(), first, supposed(modifiers));
        proof {
            lemma_modifier_steps(base, class.number(), first, modifiers);
            lemma_supposed(base, class.number(), first, class.count(), modifiers);
        }
        let method = match jvm::array_element(jvm, &class.methods, index) {
            Ok(method) => method,
            Err(reason) => {
                proof {
                    jvm::lemma_cut_here(head, jvm@.last(), whole, reason@);
                    assert(jvm@.skip(base) =~= head.push(jvm@.last()));
                }
                return Err(reason);
            },
        };
        let ghost taken = head.push(JvmStep::Element(class.number(), index, Ok(())));
        let bits: i32 = match jvm::call_for_int(jvm, &method, "getModifiers", "()I") {
            Ok(bits) => bits,
            Err(reason) => {
                proof {
                    jvm::lemma_cut_here(taken, jvm@.last(), whole, reason@);
                    assert(jvm@.skip(base) =~= taken.push(jvm@.last()));
                }
                return Err(reason);
            },
        };
        let ghost earlier = modifiers;
        proof {
            modifiers = modifiers.push(bits);
            assert(modifiers.drop_last() =~= earlier);
            assert(jvm@ =~= before + modifier_steps(base, class.number(), first, modifiers));
            lemma_modifier_steps(base, class.number(), first, modifiers);
        }
        if is_native(bits) {
            let ghost chosen = jvm@;
            let found = read_method(jvm, &method, index);
            proof {
                jvm::lemma_goes_on(before, chosen, jvm@);
                let rest = jvm@.skip(chosen.len() as int);
                let (name, types) = choose|name: String, types: Types|
                    pieces_read(
                        chosen.len() as int,
                        method.number(),
                        index,
                        name,
                        types,
                        rest,
                        found,
                    );
                let answers = MethodAnswers { modifiers, name, types };
                let opened = modifier_steps(base, class.number(), first, modifiers);
                assert(chosen.skip(base) =~= opened);
                let pieces = pieces_steps(chosen.len() as int, method.number(), name, types);
                assert(method_steps(base, class.number(), first, answers) =~= opened + pieces);
                assert(answers_fit(first, class.count(), answers));
                if found is Err {
                    jvm::lemma_cut_later(opened, rest, pieces, found->Err_0@);
                } else {
                    assert(method_of(first, answers, found->Ok_0));
                }
            }
            return match found {
                Ok(native) => Ok(Some(native)),
                Err(reason) => Err(reason),
            };
        }
        index += 1;
    }
    assert(jvm@.skip(base) =~= modifier_steps(base, class.number(), first, modifiers));
    assert(none_left(first, class.count(), modifiers));
    Ok(None)
}

} // verus!
