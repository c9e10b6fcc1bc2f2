//! Chat messages as serenity's message builder puts them together. All of
//! this file is trusted: each function makes one call into the builder, and
//! its contract says what that call does to the text built so far.

use vstd::prelude::*;

use crate::text::all_digits;

verus! {

#[verifier::external_type_specification]
#[verifier::external_body]
pub struct ExMessageBuilder(poise::serenity_prelude::MessageBuilder);

/// The text that `builder` has built so far.
pub uninterp spec fn message_text(builder: poise::serenity_prelude::MessageBuilder) -> Seq<char>;

/// What `push_bold_safe` writes between the bold marks for `content`: the
/// content with invitations, mentions of everyone, direction marks and bold
/// marks in it made harmless.
pub uninterp spec fn harmless(content: Seq<char>) -> Seq<char>;

/// The mark that stands before and behind text in bold.
pub open spec fn bold_mark() -> Seq<char> {
    "**"@
}

/// Calls `MessageBuilder::new`: a builder that has built nothing yet.
#[verifier::external_body]
pub(crate) fn new_message() -> (builder: poise::serenity_prelude::MessageBuilder)
    ensures
        message_text(builder) == Seq::<char>::empty(),
{
    poise::serenity_prelude::MessageBuilder::new()
}

/// Calls `MessageBuilder::push`, which writes `content` behind what is built,
/// as it is.
#[verifier::external_body]
pub(crate) fn push(builder: &mut poise::serenity_prelude::MessageBuilder, content: &str)
    ensures
        message_text(*final(builder)) == message_text(*old(builder)) + content@,
{
    builder.push(content);
}

/// Calls `MessageBuilder::push_bold_safe`, which writes behind what is built
/// the bold mark, the content made harmless and the bold mark again. What it
/// makes harmless are texts with a letter, an `@`, a `*` or a direction mark
/// in them, so a content of digits is written as it is.
#[verifier::external_body]
pub(crate) fn push_bold_safe(builder: &mut poise::serenity_prelude::MessageBuilder, content: &str)
    ensures
        message_text(*final(builder)) == message_text(*old(builder)) + bold_mark() + harmless(
            content@,
        ) + bold_mark(),
        all_digits(content@) ==> message_text(*final(builder)) == message_text(*old(builder))
            + bold_mark() + content@ + bold_mark(),
{
    builder.push_bold_safe(content);
}

/// Calls `MessageBuilder::build`, which hands out a copy of what is built
/// and leaves the builder as it is.
#[verifier::external_body]
pub(crate) fn build(builder: &mut poise::serenity_prelude::MessageBuilder) -> (text: String)
    ensures
        text@ == message_text(*old(builder)),
        message_text(*final(builder)) == message_text(*old(builder)),
{
    builder.build()
}

} // verus!
