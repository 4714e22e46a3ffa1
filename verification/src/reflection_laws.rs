//! What reflection asks and what it makes of the answers: laws of
//! [`crate::reflection`].
//!
//! The laws speak of the single requests to the machine. The request at place `k`
//! of an exchange that starts at place `base` of the record has place `base + k`
//! there, and so has the object that it is answered with.
use crate::jvm;
use crate::jvm::JvmStep;
use crate::native_registry;
use crate::reflection;
use crate::reflection::{ClassMethods, NativeMethod, Types};
use vstd::prelude::*;

verus! {

/// The text that a request was answered with.
pub open spec fn text_answered(step: JvmStep) -> Seq<char> {
    match step {
        JvmStep::Text(_, Ok(text)) => text@,
        _ => seq![],
    }
}

/// The length that a request was answered with, 0 if it is negative.
pub open spec fn length_answered(step: JvmStep) -> int {
    match step {
        JvmStep::Length(_, Ok(length)) => if length > 0 {
            length as int
        } else {
            0
        },
        _ => 0,
    }
}

/// The number that a request was answered with.
pub open spec fn number_answered(step: JvmStep) -> i32 {
    match step {
        JvmStep::CallInt(_, _, _, Ok(number)) => number,
        _ => 0,
    }
}

/// A method of an object is called that gives a string, at `place` of the record,
/// and that string is read.
pub open spec fn asks_text(
    one: JvmStep,
    other: JvmStep,
    place: int,
    object: int,
    method: Seq<char>,
) -> bool {
    &&& one == JvmStep::CallObject(object, method, "()Ljava/lang/String;"@, Ok(()))
    &&& other matches JvmStep::Text(string, answer) && string == place && answer is Ok
}

/// The element of an array at `index` is read, by the request at `at` of the
/// exchange, and asked for its name.
pub open spec fn asks_name_of_element(
    steps: Seq<JvmStep>,
    base: int,
    at: int,
    array: int,
    index: int,
) -> bool {
    &&& 0 <= at
    &&& at + 3 <= steps.len()
    &&& steps[at] matches JvmStep::Element(object, i, answer) && object == array && i == index
        && answer is Ok
    &&& asks_text(steps[at + 1], steps[at + 2], base + at + 1, base + at, "getName"@)
}

/// The exchange reports no error but in its last request, which gives this reason.
pub open spec fn fails_last(steps: Seq<JvmStep>, reason: Seq<char>) -> bool {
    &&& steps.len() > 0
    &&& jvm::failure_of(steps.last()) matches Some(given) && given@ == reason
    &&& forall|i: int|
        0 <= i < steps.len() - 1 ==> jvm::failure_of(#[trigger] steps[i]) is None
}

/// No request of the exchange fails.
pub open spec fn never_fails(steps: Seq<JvmStep>) -> bool {
    forall|i: int| 0 <= i < steps.len() ==> jvm::failure_of(#[trigger] steps[i]) is None
}

/// The error of a request is what the machine answered, whatever was asked.
pub proof fn law_errors_are_the_machines(
    object: int,
    method: Seq<char>,
    signature: Seq<char>,
    index: i32,
    reason: String,
)
    ensures
        jvm::failure_of(JvmStep::CallObject(object, method, signature, Err(reason))) == Some(
            reason,
        ),
        jvm::failure_of(JvmStep::CallInt(object, method, signature, Err(reason))) == Some(reason),
        jvm::failure_of(JvmStep::Text(object, Err(reason))) == Some(reason),
        jvm::failure_of(JvmStep::Length(object, Err(reason))) == Some(reason),
        jvm::failure_of(JvmStep::Element(object, index, Err(reason))) == Some(reason),
        jvm::failure_of(JvmStep::Check(Err(reason))) == Some(reason),
        jvm::failure_of(JvmStep::CallObject(object, method, signature, Ok(()))) is None,
        jvm::failure_of(JvmStep::CallInt(object, method, signature, Ok(index))) is None,
        jvm::failure_of(JvmStep::Text(object, Ok(reason))) is None,
        jvm::failure_of(JvmStep::Length(object, Ok(index))) is None,
        jvm::failure_of(JvmStep::Element(object, index, Ok(()))) is None,
{
}

/// An exchange that is cut short of one without errors fails at its last request,
/// and has asked what that one asks.
proof fn lemma_cut_fails_last(steps: Seq<JvmStep>, whole: Seq<JvmStep>, reason: Seq<char>)
    requires
        jvm::cut_short(steps, whole, reason),
        never_fails(whole),
    ensures
        fails_last(steps, reason),
{
    assert forall|i: int| 0 <= i < steps.len() - 1 implies jvm::failure_of(
        #[trigger] steps[i],
    ) is None by {
        assert(steps.drop_last()[i] == steps[i]);
        assert(whole.take(steps.len() - 1)[i] == whole[i]);
    }
}

/// The name of a class, or a text in general, is what the machine answers: one
/// call of the method on the object, and one reading of the string that it gives.
/// Otherwise the last of these failed.
pub proof fn law_text_is_what_is_answered(
    base: int,
    object: int,
    method: Seq<char>,
    steps: Seq<JvmStep>,
    answer: Result<String, String>,
)
    requires
        reflection::text_read(base, object, method, steps, answer),
    ensures
        answer matches Ok(text) ==> steps.len() == 2 && asks_text(
            steps[0],
            steps[1],
            base,
            object,
            method,
        ) && text_answered(steps[1]) == text@,
        answer matches Err(reason) ==> fails_last(steps, reason@) && steps.len() <= 2,
{
    if let Err(reason) = answer {
        let given = choose|given: String|
            jvm::cut_short(
                steps,
                #[trigger] reflection::text_steps(base, object, method, given),
                reason@,
            );
        lemma_cut_fails_last(
            steps,
            reflection::text_steps(base, object, method, given),
            reason@,
        );
    }
}

/// The name in the exchange for the names of an array is the one of its element.
proof fn lemma_names(base: int, array: int, names: Seq<String>)
    requires
        names.len() <= i32::MAX,
    ensures
        ({
            let steps = reflection::names_steps(base, array, names);
            &&& steps.len() == 3 * names.len()
            &&& never_fails(steps)
            &&& forall|i: int|
                0 <= i < names.len() ==> #[trigger] asks_name_of_element(
                    steps,
                    base,
                    3 * i,
                    array,
                    i,
                ) && text_answered(steps[3 * i + 2]) == names[i]@
        }),
    decreases names.len(),
{
    let steps = reflection::names_steps(base, array, names);
    if names.len() > 0 {
        let earlier = names.drop_last();
        let last = names.len() - 1;
        lemma_names(base, array, earlier);
        let head = reflection::names_steps(base, array, earlier);
        let tail = seq![JvmStep::Element(array, last as i32, Ok(()))] + reflection::text_steps(
            base + 3 * last + 1,
            base + 3 * last,
            "getName"@,
            names.last(),
        );
        assert(steps =~= head + tail);
        assert forall|i: int| 0 <= i < names.len() implies #[trigger] asks_name_of_element(
            steps,
            base,
            3 * i,
            array,
            i,
        ) && text_answered(steps[3 * i + 2]) == names[i]@ by {
            if i < last {
                assert(asks_name_of_element(head, base, 3 * i, array, i));
                assert(steps[3 * i] == head[3 * i]);
                assert(steps[3 * i + 1] == head[3 * i + 1]);
                assert(steps[3 * i + 2] == head[3 * i + 2]);
                assert(earlier[i] == names[i]);
            } else {
                assert(steps[3 * i] == tail[0]);
                assert(steps[3 * i + 1] == tail[1]);
                assert(steps[3 * i + 2] == tail[2]);
            }
        }
        assert forall|i: int| 0 <= i < steps.len() implies jvm::failure_of(
            #[trigger] steps[i],
        ) is None by {
            if i < head.len() {
                assert(steps[i] == head[i]);
            } else {
                assert(steps[i] == tail[i - head.len()]);
            }
        }
    }
}

/// The names of the classes in an array are what the machine answers for its
/// elements: each element is asked for once, in order, and the i-th name is that
/// of the i-th element.
pub proof fn law_names_are_those_of_the_elements(
    base: int,
    array: int,
    length: i32,
    steps: Seq<JvmStep>,
    names: Result<Vec<String>, String>,
)
    requires
        reflection::names_read(base, array, length, steps, names),
    ensures
        names matches Ok(given) ==> given@.len() == (if length > 0 {
            length as int
        } else {
            0
        }) && steps.len() == 3 * given@.len(),
        names matches Ok(given) ==> forall|i: int|
            0 <= i < given@.len() ==> #[trigger] asks_name_of_element(
                steps,
                base,
                3 * i,
                array,
                i,
            ),
        names matches Ok(given) ==> forall|i: int|
            0 <= i < given@.len() ==> #[trigger] given@[i]@ == text_answered(steps[3 * i + 2]),
        names matches Err(reason) ==> fails_last(steps, reason@),
{
    match names {
        Ok(given) => {
            lemma_names(base, array, given@);
            assert forall|i: int| 0 <= i < given@.len() implies #[trigger] given@[i]@
                == text_answered(steps[3 * i + 2]) by {
                assert(asks_name_of_element(steps, base, 3 * i, array, i));
            }
        },
        Err(reason) => {
            let given = choose|given: Seq<String>|
                given.len() == reflection::counted(length) && jvm::cut_short(
                    steps,
                    #[trigger] reflection::names_steps(base, array, given),
                    reason@,
                );
            lemma_names(base, array, given);
            lemma_cut_fails_last(
                steps,
                reflection::names_steps(base, array, given),
                reason@,
            );
        },
    }
}

/// The descriptors of the first types that a method takes, from what the machine
/// answers for them.
pub open spec fn descriptors_answered(steps: Seq<JvmStep>, n: int) -> Seq<char>
    decreases n,
{
    if n <= 0 {
        seq![]
    } else {
        descriptors_answered(steps, n - 1) + native_registry::descriptor(
            text_answered(steps[3 * n + 1]),
        )
    }
}

/// The exchange asks for the types that a method takes, how many they are and the
/// name of each of them once and in order, and for the name of the type that it
/// returns; and the signature is spelled from these answers.
pub open spec fn spells_answers(
    base: int,
    method: int,
    steps: Seq<JvmStep>,
    signature: Seq<char>,
) -> bool {
    let n = length_answered(steps[1]);
    &&& steps.len() == 3 * n + 5
    &&& steps[0] == JvmStep::CallObject(
        method,
        "getParameterTypes"@,
        "()[Ljava/lang/Class;"@,
        Ok(()),
    )
    &&& steps[1] matches JvmStep::Length(array, answer) && array == base && answer is Ok
    &&& forall|i: int|
        0 <= i < n ==> #[trigger] asks_name_of_element(steps, base, 3 * i + 2, base, i)
    &&& steps[3 * n + 2] == JvmStep::CallObject(
        method,
        "getReturnType"@,
        "()Ljava/lang/Class;"@,
        Ok(()),
    )
    &&& asks_text(
        steps[3 * n + 3],
        steps[3 * n + 4],
        base + 3 * n + 3,
        base + 3 * n + 2,
        "getName"@,
    )
    &&& signature == "("@ + descriptors_answered(steps, n) + ")"@ + native_registry::descriptor(
        text_answered(steps[3 * n + 4]),
    )
}

/// The descriptors of names are those of the answers that the names are.
proof fn lemma_descriptors(steps: Seq<JvmStep>, names: Seq<String>)
    requires
        forall|i: int|
            0 <= i < names.len() ==> text_answered(steps[3 * i + 4]) == (#[trigger] names[i])@,
    ensures
        descriptors_answered(steps, names.len() as int) == native_registry::descriptors(names),
    decreases names.len(),
{
    if names.len() > 0 {
        let earlier = names.drop_last();
        assert forall|i: int| 0 <= i < earlier.len() implies text_answered(steps[3 * i + 4])
            == (#[trigger] earlier[i])@ by {
            assert(earlier[i] == names[i]);
        }
        lemma_descriptors(steps, earlier);
        let last = names.len() - 1;
        assert(text_answered(steps[3 * last + 4]) == names[last]@);
    }
}

/// The exchange that reads types spells them.
proof fn lemma_types(base: int, method: int, types: Types)
    requires
        reflection::types_fit(types),
    ensures
        spells_answers(
            base,
            method,
            reflection::types_steps(base, method, types),
            native_registry::signature_text(types.parameters, types.returned@),
        ),
        never_fails(reflection::types_steps(base, method, types)),
{
    let steps = reflection::types_steps(base, method, types);
    let head = reflection::types_opening(base, method, types.length);
    let read = reflection::names_steps(base + 2, base, types.parameters);
    let n = types.parameters.len() as int;
    let tail = reflection::returned_steps(base + 2 + 3 * n, method, types.returned);
    lemma_names(base + 2, base, types.parameters);
    assert(steps =~= head + read + tail);
    assert(steps[0] == head[0]);
    assert(steps[1] == head[1]);
    assert(length_answered(steps[1]) == n);
    assert forall|k: int| 0 <= k < 3 * n implies steps[k + 2] == read[k] by {}
    assert forall|i: int| 0 <= i < n implies #[trigger] asks_name_of_element(
        steps,
        base,
        3 * i + 2,
        base,
        i,
    ) by {
        assert(asks_name_of_element(read, base + 2, 3 * i, base, i));
        assert(steps[3 * i + 2] == read[3 * i]);
        assert(steps[3 * i + 1 + 2] == read[3 * i + 1]);
        assert(steps[3 * i + 2 + 2] == read[3 * i + 2]);
    }
    assert forall|i: int| 0 <= i < types.parameters.len() implies text_answered(steps[3 * i + 4])
        == (#[trigger] types.parameters[i])@ by {
        assert(asks_name_of_element(read, base + 2, 3 * i, base, i));
        assert(steps[3 * i + 2 + 2] == read[3 * i + 2]);
    }
    lemma_descriptors(steps, types.parameters);
    assert(steps[3 * n + 2] == tail[0]);
    assert(steps[3 * n + 3] == tail[1]);
    assert(steps[3 * n + 4] == tail[2]);
    assert forall|i: int| 0 <= i < steps.len() implies jvm::failure_of(
        #[trigger] steps[i],
    ) is None by {
        if i < 2 {
            assert(steps[i] == head[i]);
        } else if i < 3 * n + 2 {
            assert(steps[i] == read[i - 2]);
        } else {
            assert(steps[i] == tail[i - 2 - 3 * n]);
        }
    }
}

/// The signature of a method is spelled from the names of the types that the
/// machine answers: each type that the method takes, once and in order, and the
/// one that it returns. Otherwise the last request failed.
pub proof fn law_signature_is_spelled_from_the_answers(
    base: int,
    method: int,
    steps: Seq<JvmStep>,
    signature: Result<String, String>,
)
    requires
        reflection::signature_read(base, method, steps, signature),
    ensures
        signature matches Ok(spelled) ==> spells_answers(base, method, steps, spelled@),
        signature matches Err(reason) ==> fails_last(steps, reason@),
{
    match signature {
        Ok(spelled) => {
            let types = choose|types: Types|
                reflection::types_fit(types) && steps == #[trigger] reflection::types_steps(
                    base,
                    method,
                    types,
                ) && spelled@ == native_registry::signature_text(
                    types.parameters,
                    types.returned@,
                );
            lemma_types(base, method, types);
        },
        Err(reason) => {
            let types = choose|types: Types|
                reflection::types_fit(types) && jvm::cut_short(
                    steps,
                    #[trigger] reflection::types_steps(base, method, types),
                    reason@,
                );
            lemma_types(base, method, types);
            lemma_cut_fails_last(
                steps,
                reflection::types_steps(base, method, types),
                reason@,
            );
        },
    }
}

/// The methods of a class are what the machine answers: its name, the methods that
/// it declares and how many they are. Otherwise the last request failed, and the
/// message says so of the request for the methods.
pub proof fn law_class_is_what_is_answered(
    base: int,
    class: int,
    steps: Seq<JvmStep>,
    methods: Result<ClassMethods<'_>, String>,
)
    requires
        reflection::class_read(base, class, steps, methods),
    ensures
        methods matches Ok(found) ==> {
            &&& steps.len() == 4
            &&& asks_text(steps[0], steps[1], base, class, "getName"@)
            &&& found.class_name() == text_answered(steps[1])
            &&& steps[2] == JvmStep::CallObject(
                class,
                "getDeclaredMethods"@,
                "()[Ljava/lang/reflect/Method;"@,
                Ok(()),
            )
            &&& found.number() == base + 2
            &&& steps[3] == JvmStep::Length(base + 2, Ok(found.count()))
        },
        methods matches Err(message) ==> 1 <= steps.len() <= 4 && exists|reason: Seq<char>|
            #[trigger] fails_last(steps, reason) && message@ == (if steps.len() == 3 {
                "getDeclaredMethods: "@ + reason
            } else {
                reason
            }),
{
    if let Err(message) = methods {
        let (name, count, reason) = choose|name: String, count: i32, reason: Seq<char>| #[trigger]
            jvm::cut_short(steps, reflection::class_steps(base, class, name, count), reason)
                && message@ == if steps.len() == 3 {
                "getDeclaredMethods: "@ + reason
            } else {
                reason
            };
        lemma_cut_fails_last(
            steps,
            reflection::class_steps(base, class, name, count),
            reason,
        );
    }
}

/// The method at `first + j` is read from the array of methods and asked for its
/// modifiers.
pub open spec fn asks_modifiers(
    steps: Seq<JvmStep>,
    base: int,
    methods: int,
    first: i32,
    j: int,
) -> bool {
    &&& 0 <= j
    &&& 2 * j + 2 <= steps.len()
    &&& steps[2 * j] matches JvmStep::Element(array, index, answer) && array == methods && index
        == first + j && answer is Ok
    &&& steps[2 * j + 1] matches JvmStep::CallInt(object, method, signature, answer) && object
        == base + 2 * j && method == "getModifiers"@ && signature == "()I"@ && answer is Ok
}

/// The modifiers that are answered for the method at `first + j`.
pub open spec fn modifiers_answered(steps: Seq<JvmStep>, j: int) -> i32 {
    number_answered(steps[2 * j + 1])
}

/// The exchange for modifiers asks for those of each method.
proof fn lemma_modifiers(base: int, methods: int, first: i32, modifiers: Seq<i32>)
    requires
        first + modifiers.len() <= i32::MAX,
        0 <= first,
    ensures
        ({
            let steps = reflection::modifier_steps(base, methods, first, modifiers);
            &&& steps.len() == 2 * modifiers.len()
            &&& never_fails(steps)
            &&& forall|j: int|
                0 <= j < modifiers.len() ==> #[trigger] asks_modifiers(
                    steps,
                    base,
                    methods,
                    first,
                    j,
                ) && modifiers_answered(steps, j) == modifiers[j]
        }),
    decreases modifiers.len(),
{
    let steps = reflection::modifier_steps(base, methods, first, modifiers);
    if modifiers.len() > 0 {
        let earlier = modifiers.drop_last();
        let last = modifiers.len() - 1;
        lemma_modifiers(base, methods, first, earlier);
        let head = reflection::modifier_steps(base, methods, first, earlier);
        let tail = seq![
            JvmStep::Element(methods, (first + last) as i32, Ok(())),
            JvmStep::CallInt(base + 2 * last, "getModifiers"@, "()I"@, Ok(modifiers.last())),
        ];
        assert(steps =~= head + tail);
        assert forall|j: int| 0 <= j < modifiers.len() implies #[trigger] asks_modifiers(
            steps,
            base,
            methods,
            first,
            j,
        ) && modifiers_answered(steps, j) == modifiers[j] by {
            if j < last {
                assert(asks_modifiers(head, base, methods, first, j));
                assert(steps[2 * j] == head[2 * j]);
                assert(steps[2 * j + 1] == head[2 * j + 1]);
                assert(earlier[j] == modifiers[j]);
            } else {
                assert(steps[2 * j] == tail[0]);
                assert(steps[2 * j + 1] == tail[1]);
            }
        }
        assert forall|i: int| 0 <= i < steps.len() implies jvm::failure_of(
            #[trigger] steps[i],
        ) is None by {
            if i < head.len() {
                assert(steps[i] == head[i]);
            } else {
                assert(steps[i] == tail[i - head.len()]);
            }
        }
    }
}

/// The native method that the exchange finds is the first one from `first` on:
/// every method up to it was asked for its modifiers, it is native and no one
/// before it is, its name is what it answers, and its signature is spelled from
/// its answers.
pub open spec fn finds_first_native(
    base: int,
    methods: int,
    first: i32,
    steps: Seq<JvmStep>,
    found: NativeMethod,
) -> bool {
    let k = found.index - first;
    let object = base + 2 * k;
    &&& 0 <= k
    &&& 2 * k + 4 <= steps.len()
    &&& forall|j: int|
        0 <= j <= k ==> #[trigger] asks_modifiers(steps, base, methods, first, j) && (
        native_registry::native(modifiers_answered(steps, j)) <==> j == k)
    &&& asks_text(steps[2 * k + 2], steps[2 * k + 3], base + 2 * k + 2, object, "getName"@)
    &&& found.name@ == text_answered(steps[2 * k + 3])
    &&& spells_answers(base + 2 * k + 4, object, steps.skip(2 * k + 4), found.signature@)
}

/// No method from `first` to the last one is native, and each was asked.
pub open spec fn finds_none(
    base: int,
    methods: int,
    first: i32,
    count: i32,
    steps: Seq<JvmStep>,
) -> bool {
    let n = if first < count {
        count - first
    } else {
        0
    };
    &&& steps.len() == 2 * n
    &&& forall|j: int|
        0 <= j < n ==> #[trigger] asks_modifiers(steps, base, methods, first, j)
            && !native_registry::native(modifiers_answered(steps, j))
}

/// The exchange that finds a method does so.
proof fn lemma_method(
    base: int,
    methods: int,
    first: i32,
    count: i32,
    answers: reflection::MethodAnswers,
)
    requires
        0 <= first,
        reflection::answers_fit(first, count, answers),
    ensures
        never_fails(reflection::method_steps(base, methods, first, answers)),
        forall|found: NativeMethod| #[trigger]
            reflection::method_of(first, answers, found) ==> finds_first_native(
                base,
                methods,
                first,
                reflection::method_steps(base, methods, first, answers),
                found,
            ),
{
    let steps = reflection::method_steps(base, methods, first, answers);
    let m = answers.modifiers.len() as int;
    let k = m - 1;
    let object = base + 2 * k;
    let head = reflection::modifier_steps(base, methods, first, answers.modifiers);
    let middle = reflection::text_steps(base + 2 * m, object, "getName"@, answers.name);
    let tail = reflection::types_steps(base + 2 * m + 2, object, answers.types);
    lemma_modifiers(base, methods, first, answers.modifiers);
    lemma_types(base + 2 * m + 2, object, answers.types);
    assert(steps =~= head + middle + tail);
    assert(steps[2 * k + 2] == middle[0]);
    assert(steps[2 * k + 3] == middle[1]);
    assert(steps.skip(2 * k + 4) =~= tail);
    assert forall|j: int| 0 <= j <= k implies #[trigger] asks_modifiers(
        steps,
        base,
        methods,
        first,
        j,
    ) && (native_registry::native(modifiers_answered(steps, j)) <==> j == k) by {
        assert(asks_modifiers(head, base, methods, first, j));
        assert(steps[2 * j] == head[2 * j]);
        assert(steps[2 * j + 1] == head[2 * j + 1]);
        assert(modifiers_answered(head, j) == answers.modifiers[j]);
    }
    assert forall|i: int| 0 <= i < steps.len() implies jvm::failure_of(
        #[trigger] steps[i],
    ) is None by {
        if i < head.len() {
            assert(steps[i] == head[i]);
        } else if i < head.len() + 2 {
            assert(steps[i] == middle[i - head.len()]);
        } else {
            assert(steps[i] == tail[i - head.len() - 2]);
        }
    }
    assert forall|found: NativeMethod| #[trigger]
        reflection::method_of(first, answers, found) implies finds_first_native(
        base,
        methods,
        first,
        steps,
        found,
    ) by {
        assert(found.index - first == k);
    }
}

/// Looking for the next native method of a class finds the first one from `first`
/// on, with the name and the signature that the machine answers for it, or none
/// exactly if no method from there to the last one is native. Otherwise the last
/// request failed.
pub proof fn law_next_native_method_is_the_first(
    base: int,
    class: ClassMethods<'_>,
    first: i32,
    steps: Seq<JvmStep>,
    method: Result<Option<NativeMethod>, String>,
)
    requires
        0 <= first,
        reflection::method_read(base, class, first, steps, method),
    ensures
        method matches Ok(Some(found)) ==> finds_first_native(
            base,
            class.number(),
            first,
            steps,
            found,
        ) && found.index < class.count(),
        method matches Ok(None) ==> finds_none(
            base,
            class.number(),
            first,
            class.count(),
            steps,
        ),
        method matches Err(reason) ==> fails_last(steps, reason@),
{
    match method {
        Ok(Some(found)) => {
            let answers = choose|answers: reflection::MethodAnswers|
                reflection::answers_fit(first, class.count(), answers) && reflection::method_of(
                    first,
                    answers,
                    found,
                ) && steps == #[trigger] reflection::method_steps(
                    base,
                    class.number(),
                    first,
                    answers,
                );
            lemma_method(base, class.number(), first, class.count(), answers);
            assert(reflection::method_of(first, answers, found));
        },
        Ok(None) => {
            let modifiers = choose|modifiers: Seq<i32>|
                reflection::none_left(first, class.count(), modifiers) && steps
                    == #[trigger] reflection::modifier_steps(
                    base,
                    class.number(),
                    first,
                    modifiers,
                );
            lemma_modifiers(base, class.number(), first, modifiers);
            assert forall|j: int| 0 <= j < modifiers.len() implies #[trigger] asks_modifiers(
                steps,
                base,
                class.number(),
                first,
                j,
            ) && !native_registry::native(modifiers_answered(steps, j)) by {
                assert(asks_modifiers(steps, base, class.number(), first, j));
                assert(modifiers_answered(steps, j) == modifiers[j]);
            }
        },
        Err(reason) => {
            let answers = choose|answers: reflection::MethodAnswers|
                reflection::answers_fit(first, class.count(), answers) && jvm::cut_short(
                    steps,
                    #[trigger] reflection::method_steps(base, class.number(), first, answers),
                    reason@,
                );
            lemma_method(base, class.number(), first, class.count(), answers);
            lemma_cut_fails_last(
                steps,
                reflection::method_steps(base, class.number(), first, answers),
                reason@,
            );
        },
    }
}

} // verus!
