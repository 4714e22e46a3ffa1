//! Access to objects of a Java virtual machine.
//!
//! What the machine answers is up to the program it runs, so nothing is said of
//! the answers here. What is said is what was asked: each function adds the
//! request, with the answer, to the record of the exchange, and goes through the
//! same attachment as before: a `JNIEnv` is an address that its methods do not
//! change. Nothing is asked after a request that failed: an exception may be
//! pending then. An error is handed on as the text that `jni::errors::Error`
//! displays.
use jni::objects::{JClass, JObject, JObjectArray};
use jni::JNIEnv;
use vstd::prelude::*;

verus! {

/// `jni::JNIEnv`: the attachment of a thread to the machine.
#[verifier::external_type_specification]
#[verifier::external_body]
pub struct ExJNIEnv<'local>(jni::JNIEnv<'local>);

/// `jni::objects::JObject`: a reference to an object.
#[verifier::external_type_specification]
#[verifier::external_body]
pub struct ExJObject<'local>(jni::objects::JObject<'local>);

/// `jni::objects::JClass`: a reference to a class.
#[verifier::external_type_specification]
#[verifier::external_body]
pub struct ExJClass<'local>(jni::objects::JClass<'local>);

/// `jni::sys::_jobject`: what a reference points to.
#[verifier::external_type_specification]
#[verifier::external_body]
pub struct ExRawObject(jni::sys::_jobject);

/// A request to the machine, and the answer to it. An object is given by its
/// number, which is the place in the record of the request that it answered.
pub enum JvmStep {
    /// It was asked whether an exception is pending.
    Check(Result<bool, String>),
    /// A method of an object, by name and signature, was called for an object.
    CallObject(int, Seq<char>, Seq<char>, Result<(), String>),
    /// A method of an object, by name and signature, was called for an `int`.
    CallInt(int, Seq<char>, Seq<char>, Result<i32, String>),
    /// The characters of a string were read.
    Text(int, Result<String, String>),
    /// The length of an array was read.
    Length(int, Result<i32, String>),
    /// The element of an array at an index was read.
    Element(int, i32, Result<(), String>),
}

/// The error that a request was answered with.
pub open spec fn failure_of(step: JvmStep) -> Option<String> {
    match step {
        JvmStep::Check(Err(reason)) => Some(reason),
        JvmStep::CallObject(_, _, _, Err(reason)) => Some(reason),
        JvmStep::CallInt(_, _, _, Err(reason)) => Some(reason),
        JvmStep::Text(_, Err(reason)) => Some(reason),
        JvmStep::Length(_, Err(reason)) => Some(reason),
        JvmStep::Element(_, _, Err(reason)) => Some(reason),
        _ => None,
    }
}

/// The same was asked, whatever the answers.
pub open spec fn same_request(one: JvmStep, other: JvmStep) -> bool {
    match (one, other) {
        (JvmStep::Check(_), JvmStep::Check(_)) => true,
        (
            JvmStep::CallObject(object, method, signature, _),
            JvmStep::CallObject(object2, method2, signature2, _),
        ) => object == object2 && method == method2 && signature == signature2,
        (
            JvmStep::CallInt(object, method, signature, _),
            JvmStep::CallInt(object2, method2, signature2, _),
        ) => object == object2 && method == method2 && signature == signature2,
        (JvmStep::Text(object, _), JvmStep::Text(object2, _)) => object == object2,
        (JvmStep::Length(object, _), JvmStep::Length(object2, _)) => object == object2,
        (JvmStep::Element(object, index, _), JvmStep::Element(object2, index2, _)) => object
            == object2 && index == index2,
        _ => false,
    }
}

/// The exchange `steps` is `whole` up to a request that was answered with an
/// error, which gave this reason.
pub open spec fn cut_short(steps: Seq<JvmStep>, whole: Seq<JvmStep>, reason: Seq<char>) -> bool {
    &&& 0 < steps.len() <= whole.len()
    &&& steps.drop_last() == whole.take(steps.len() - 1)
    &&& same_request(steps.last(), whole[steps.len() - 1])
    &&& failure_of(steps.last()) is Some
    &&& failure_of(steps.last())->Some_0@ == reason
}

/// The machine has no exception pending: it answered the last request, and if that
/// was whether there is one, it said no.
pub open spec fn quiet(record: Seq<JvmStep>) -> bool {
    &&& record.len() > 0
    &&& failure_of(record.last()) is None
    &&& record.last() is Check ==> record.last() == JvmStep::Check(Ok(false))
}

/// An exchange that goes on twice is its first part and then its second.
pub proof fn lemma_goes_on(before: Seq<JvmStep>, middle: Seq<JvmStep>, after: Seq<JvmStep>)
    requires
        before.is_prefix_of(middle),
        middle.is_prefix_of(after),
    ensures
        before.is_prefix_of(after),
        after.skip(before.len() as int) == middle.skip(before.len() as int) + after.skip(
            middle.len() as int,
        ),
{
    assert(after.take(before.len() as int) =~= middle.take(before.len() as int));
    assert(after.skip(before.len() as int) =~= middle.skip(before.len() as int) + after.skip(
        middle.len() as int,
    ));
}

/// An exchange that is cut short is so within one that goes on for longer.
pub proof fn lemma_cut_longer(
    steps: Seq<JvmStep>,
    whole: Seq<JvmStep>,
    longer: Seq<JvmStep>,
    reason: Seq<char>,
)
    requires
        cut_short(steps, whole, reason),
        whole.is_prefix_of(longer),
    ensures
        cut_short(steps, longer, reason),
{
    assert(longer.take(steps.len() - 1) =~= whole.take(steps.len() - 1));
}

/// An exchange that is cut short is so behind what came before it.
pub proof fn lemma_cut_later(
    head: Seq<JvmStep>,
    steps: Seq<JvmStep>,
    whole: Seq<JvmStep>,
    reason: Seq<char>,
)
    requires
        cut_short(steps, whole, reason),
    ensures
        cut_short(head + steps, head + whole, reason),
{
    assert((head + steps).drop_last() =~= head + steps.drop_last());
    assert((head + whole).take((head + steps).len() - 1) =~= head + whole.take(steps.len() - 1));
}

/// A request that is answered with an error cuts an exchange short.
pub proof fn lemma_cut_here(
    head: Seq<JvmStep>,
    failed: JvmStep,
    whole: Seq<JvmStep>,
    reason: Seq<char>,
)
    requires
        head.len() < whole.len(),
        head =~= whole.take(head.len() as int),
        same_request(failed, whole[head.len() as int]),
        failure_of(failed) is Some,
        failure_of(failed)->Some_0@ == reason,
    ensures
        cut_short(head.push(failed), whole, reason),
{
    assert(head.push(failed).drop_last() =~= head);
}

/// A thread attached to the machine, with what it has exchanged with it.
///
/// The record is for proofs; at run time there is none.
pub struct Jvm<'local> {
    env: JNIEnv<'local>,
    record: Ghost<Seq<JvmStep>>,
}

impl<'local> View for Jvm<'local> {
    type V = Seq<JvmStep>;

    closed spec fn view(&self) -> Seq<JvmStep> {
        self.record@
    }
}

impl<'local> Jvm<'local> {
    /// The attachment that requests go through.
    pub closed spec fn attachment(self) -> JNIEnv<'local> {
        self.env
    }

    /// Nothing has been exchanged.
    pub fn new(env: JNIEnv<'local>) -> (jvm: Jvm<'local>)
        ensures
            jvm@ == Seq::<JvmStep>::empty(),
            jvm.attachment() == env,
    {
        Jvm { env, record: Ghost(Seq::empty()) }
    }

    /// Asks whether an exception is pending. Says whether other requests may
    /// follow.
    pub fn check(&mut self) -> (takes: bool)
        ensures
            final(self).attachment() == old(self).attachment(),
            final(self)@.len() == old(self)@.len() + 1,
            final(self)@.drop_last() == old(self)@,
            final(self)@.last() is Check,
            takes == (final(self)@.last() == JvmStep::Check(Ok(false))),
            takes == quiet(final(self)@),
    {
        let pending = exception_check(self);
        assert(self@.drop_last() =~= old(self)@);
        takes_requests(&pending)
    }

    /// Gives the attachment back.
    pub fn into_env(self) -> (env: JNIEnv<'local>)
        ensures
            env == self.attachment(),
    {
        self.env
    }
}

/// An object of the machine.
pub struct JavaObject<'local> {
    object: JObject<'local>,
    number: Ghost<int>,
    array: Ghost<bool>,
    text: Ghost<bool>,
}

impl<'local> JavaObject<'local> {
    /// The place in the record of the request that the object answered, or -1
    /// if it did not come from a request.
    pub closed spec fn number(self) -> int {
        self.number@
    }

    /// The object is an array of objects, unless it is null.
    pub closed spec fn array(self) -> bool {
        self.array@
    }

    /// The object is a string, unless it is null.
    pub closed spec fn text(self) -> bool {
        self.text@
    }

    /// A class, as an object.
    pub fn from_class(class: JClass<'local>) -> (object: JavaObject<'local>)
        ensures
            object.number() == -1,
            !object.array(),
            !object.text(),
    {
        JavaObject {
            object: object_of(class),
            number: Ghost(-1),
            array: Ghost(false),
            text: Ghost(false),
        }
    }
}

/// Says whether an exception is pending: `JNIEnv::exception_check`.
#[verifier::external_body]
fn exception_check<'local>(jvm: &mut Jvm<'local>) -> (pending: Result<bool, String>)
    ensures
        final(jvm).attachment() == old(jvm).attachment(),
        final(jvm)@ == old(jvm)@.push(JvmStep::Check(pending)),
{
    jvm.env.exception_check().map_err(|e| e.to_string())
}

/// Says whether an attachment takes requests, from whether an exception is
/// pending.
pub fn takes_requests(pending: &Result<bool, String>) -> (takes: bool)
    ensures
        takes <==> *pending == Ok::<bool, String>(false),
{
    match pending {
        Ok(pending) => !*pending,
        Err(_) => false,
    }
}

/// Converts a reference: `<JObject as From<JClass>>::from`.
#[verifier::external_body]
fn object_of<'local>(class: JClass<'local>) -> (object: JObject<'local>) {
    class.into()
}

/// The signature is that of a method that takes nothing and returns an array of
/// objects of a class.
pub open spec fn returns_array(signature: Seq<char>) -> bool {
    &&& signature.len() > 3
    &&& signature[0] == '('
    &&& signature[1] == ')'
    &&& signature[2] == '['
    &&& signature[3] == 'L'
}

/// The signature is that of a method that takes nothing and returns a string.
pub open spec fn returns_text(signature: Seq<char>) -> bool {
    signature == "()Ljava/lang/String;"@
}

/// An answer without the object in it.
pub open spec fn without_object<T>(answer: Result<T, String>) -> Result<(), String> {
    match answer {
        Ok(_) => Ok(()),
        Err(reason) => Err(reason),
    }
}

/// Calls a method without arguments for an object: `JNIEnv::call_method`, then
/// `JValueOwned::l`.
#[verifier::external_body]
fn call_for_object<'local>(
    jvm: &mut Jvm<'local>,
    object: &JavaObject<'local>,
    method: &str,
    signature: &str,
) -> (answer: Result<JObject<'local>, String>)
    requires
        quiet(old(jvm)@),
    ensures
        final(jvm).attachment() == old(jvm).attachment(),
        final(jvm)@ == old(jvm)@.push(
            JvmStep::CallObject(object.number(), method@, signature@, without_object(answer)),
        ),
{
    let returned = jvm.env.call_method(&object.object, method, signature, &[]);
    returned.and_then(|value| value.l()).map_err(|e| e.to_string())
}

/// Calls a method without arguments for an `int`: `JNIEnv::call_method`, then
/// `JValueOwned::i`.
#[verifier::external_body]
pub(crate) fn call_for_int<'local>(
    jvm: &mut Jvm<'local>,
    object: &JavaObject<'local>,
    method: &str,
    signature: &str,
) -> (answer: Result<i32, String>)
    requires
        quiet(old(jvm)@),
    ensures
        final(jvm).attachment() == old(jvm).attachment(),
        final(jvm)@ == old(jvm)@.push(
            JvmStep::CallInt(object.number(), method@, signature@, answer),
        ),
{
    let returned = jvm.env.call_method(&object.object, method, signature, &[]);
    returned.and_then(|value| value.i()).map_err(|e| e.to_string())
}

/// Reads the characters of a string: `JNIEnv::get_string`, then
/// `to_string_lossy`. It is an error if the reference is null.
///
/// That function does not recognise every object that is no string, so the object
/// has to be one.
#[verifier::external_body]
pub(crate) fn read_text<'local>(jvm: &mut Jvm<'local>, object: &JavaObject<'local>) -> (answer:
    Result<String, String>)
    requires
        object.text(),
        quiet(old(jvm)@),
    ensures
        final(jvm).attachment() == old(jvm).attachment(),
        final(jvm)@ == old(jvm)@.push(JvmStep::Text(object.number(), answer)),
{
    match jvm.env.get_string((&object.object).into()) {
        Ok(text) => Ok(text.to_string_lossy().to_string()),
        Err(e) => Err(e.to_string()),
    }
}

/// Reads the length of an array: `JNIEnv::get_array_length`. It is an error if
/// there is no array.
#[verifier::external_body]
pub(crate) fn array_length<'local>(jvm: &mut Jvm<'local>, array: &JavaObject<'local>) -> (answer:
    Result<i32, String>)
    requires
        array.array(),
        quiet(old(jvm)@),
    ensures
        final(jvm).attachment() == old(jvm).attachment(),
        final(jvm)@ == old(jvm)@.push(JvmStep::Length(array.number(), answer)),
{
    let array: &JObjectArray<'local> = (&array.object).into();
    jvm.env.get_array_length(array).map_err(|e| e.to_string())
}

/// Reads an element of an array: `JNIEnv::get_object_array_element`. It is an
/// error if there is no such element.
#[verifier::external_body]
fn read_element<'local>(jvm: &mut Jvm<'local>, array: &JavaObject<'local>, index: i32) -> (answer:
    Result<JObject<'local>, String>)
    requires
        array.array(),
        quiet(old(jvm)@),
    ensures
        final(jvm).attachment() == old(jvm).attachment(),
        final(jvm)@ == old(jvm)@.push(
            JvmStep::Element(array.number(), index, without_object(answer)),
        ),
{
    let array: &JObjectArray<'local> = (&array.object).into();
    jvm.env.get_object_array_element(array, index).map_err(|e| e.to_string())
}

/// Calls a method without arguments for an object.
pub(crate) fn call_object<'local>(
    jvm: &mut Jvm<'local>,
    object: &JavaObject<'local>,
    method: &str,
    signature: &str,
) -> (answer: Result<JavaObject<'local>, String>)
    requires
        quiet(old(jvm)@),
    ensures
        final(jvm).attachment() == old(jvm).attachment(),
        final(jvm)@ == old(jvm)@.push(
            JvmStep::CallObject(object.number(), method@, signature@, without_object(answer)),
        ),
        answer matches Ok(returned) ==> returned.number() == old(jvm)@.len() && returned.array()
            == returns_array(signature@) && returned.text() == returns_text(signature@),
{
    let ghost number = jvm@.len() as int;
    match call_for_object(jvm, object, method, signature) {
        Ok(returned) => Ok(
            JavaObject {
                object: returned,
                number: Ghost(number),
                array: Ghost(returns_array(signature@)),
                text: Ghost(returns_text(signature@)),
            },
        ),
        Err(reason) => Err(reason),
    }
}

/// Reads an element of an array.
pub(crate) fn array_element<'local>(
    jvm: &mut Jvm<'local>,
    array: &JavaObject<'local>,
    index: i32,
) -> (answer: Result<JavaObject<'local>, String>)
    requires
        array.array(),
        quiet(old(jvm)@),
    ensures
        final(jvm).attachment() == old(jvm).attachment(),
        final(jvm)@ == old(jvm)@.push(
            JvmStep::Element(array.number(), index, without_object(answer)),
        ),
        answer matches Ok(element) ==> element.number() == old(jvm)@.len() && !element.array()
            && !element.text(),
{
    let ghost number = jvm@.len() as int;
    match read_element(jvm, array, index) {
        Ok(element) => Ok(
            JavaObject {
                object: element,
                number: Ghost(number),
                array: Ghost(false),
                text: Ghost(false),
            },
        ),
        Err(reason) => Err(reason),
    }
}

/// Requests may follow exactly on a request that was answered, unless the answer
/// was that an exception is pending.
pub proof fn law_requests_follow_on_answers(record: Seq<JvmStep>)
    ensures
        quiet(record) <==> record.len() > 0 && failure_of(record.last()) is None && !(
        record.last() matches JvmStep::Check(answer) && (answer matches Ok(pending) && pending)),
{
}

/// Only what a method returns whose signature says so is taken for an array of
/// objects or for a string, and nothing is taken for both.
pub proof fn law_signature_says_what_is_returned(signature: Seq<char>)
    ensures
        returns_array(signature) ==> signature.take(4) == seq!['(', ')', '[', 'L'],
        returns_text(signature) ==> signature == "()Ljava/lang/String;"@,
        !(returns_array(signature) && returns_text(signature)),
{
    reveal_strlit("()Ljava/lang/String;");
    if returns_array(signature) {
        assert(signature.take(4) =~= seq!['(', ')', '[', 'L']);
    }
}

} // verus!
