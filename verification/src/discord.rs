//! What the bot listens to.

use serenity::all::GatewayIntents;
use vstd::prelude::*;

verus! {

/// `serenity::all::GatewayIntents::GUILD_MESSAGES`, as bits.
#[verifier::external_body]
fn guild_messages() -> (bits: u64)
    ensures
        bits == 1u64 << 9,
{
    GatewayIntents::GUILD_MESSAGES.bits()
}

/// `serenity::all::GatewayIntents::DIRECT_MESSAGES`, as bits.
#[verifier::external_body]
fn direct_messages() -> (bits: u64)
    ensures
        bits == 1u64 << 12,
{
    GatewayIntents::DIRECT_MESSAGES.bits()
}

/// The events that the bot asks for: messages in guilds and messages sent to it
/// directly, and nothing else.
pub fn gateway_intents() -> (bits: u64)
    ensures
        bits == (1u64 << 9) | (1u64 << 12),
        bits == 4608,
{
    assert((1u64 << 9) | (1u64 << 12) == 4608) by (bit_vector);
    guild_messages() | direct_messages()
}

/// The bot asks for messages in guilds and for direct messages, and for nothing else.
pub proof fn law_bot_asks_for_messages_only(bits: u64, kind: u64)
    requires
        call_ensures(gateway_intents, (), bits),
        kind < 64,
    ensures
        (bits >> kind) & 1 == 1 <==> kind == 9 || kind == 12,
{
    assert((4608u64 >> kind) & 1 == 1 <==> kind == 9 || kind == 12) by (bit_vector)
        requires
            kind < 64,
    ;
}

} // verus!
