//! Turns the voice driver's packet events into the library's events.
//!
//! Users are assigned a stream (SSRC) when they start speaking; the handler
//! keeps which user each stream belongs to, and drops events from streams
//! it has not seen assigned.
use vstd::prelude::*;

use std::collections::HashMap;

use crate::api::api_types::{UserJoinData, VoiceChannelEvent};
use crate::audio::events::DiscordAudioData;
use crate::events::audio::VoiceActivityData;
use crate::model::call_attendees::user_of;
use crate::model::types::{DiscordAudioSample, DiscordRtcTimestamp, Ssrc, UserId};

verus! {

broadcast use vstd::std_specs::hash::group_hash_axioms;

pub struct PacketHandler {
    pub ssrc_to_user_id: HashMap<Ssrc, UserId>,
}

impl PacketHandler {
    pub fn new() -> (h: PacketHandler)
        ensures
            h.ssrc_to_user_id@ == Map::<Ssrc, UserId>::empty(),
    {
        PacketHandler { ssrc_to_user_id: HashMap::new() }
    }

    /// A user was assigned a stream: remember it, and report that they
    /// joined.
    pub fn on_user_join(&mut self, ssrc: Ssrc, user_id: UserId) -> (event: VoiceChannelEvent)
        ensures
            final(self).ssrc_to_user_id@ == old(self).ssrc_to_user_id@.insert(ssrc, user_id),
            event == VoiceChannelEvent::UserJoin(UserJoinData { user_id, joined: true }),
    {
        // map the SSRC to the user ID
        self.ssrc_to_user_id.insert(ssrc, user_id);
        VoiceChannelEvent::UserJoin(UserJoinData { user_id, joined: true })
    }

    /// The driver reported a stream's speaking state.  Users are assigned
    /// a stream when they start speaking: a stream used for the microphone
    /// (not for sharing a screen) whose user is known is taken as theirs.
    pub fn on_speaking_state_update(
        &mut self,
        ssrc: Ssrc,
        microphone: bool,
        user_id: Option<UserId>,
    ) -> (event: Option<VoiceChannelEvent>)
        ensures
            microphone && user_id.is_some() ==> {
                &&& final(self).ssrc_to_user_id@ == old(self).ssrc_to_user_id@.insert(
                    ssrc,
                    user_id.unwrap(),
                )
                &&& event == Some(
                    VoiceChannelEvent::UserJoin(UserJoinData { user_id: user_id.unwrap(), joined: true }),
                )
            },
            !(microphone && user_id.is_some()) ==> {
                &&& final(self).ssrc_to_user_id@ == old(self).ssrc_to_user_id@
                &&& event.is_none()
            },
    {
        if microphone {
            match user_id {
                Some(user_id) => Some(self.on_user_join(ssrc, user_id)),
                None => None,
            }
        } else {
            None
        }
    }

    /// The driver reported that a stream started or stopped carrying
    /// speech.
    pub fn on_speaking_update(&self, ssrc: Ssrc, speaking: bool) -> (activity: Option<
        VoiceActivityData,
    >)
        ensures
            activity == match user_of(self.ssrc_to_user_id@, ssrc) {
                Some(user_id) => Some(VoiceActivityData { user_id, speaking }),
                None => None,
            },
    {
        if speaking {
            self.on_start_talking(ssrc)
        } else {
            self.on_stop_talking(ssrc)
        }
    }

    /// A stream started carrying speech.
    pub fn on_start_talking(&self, ssrc: Ssrc) -> (activity: Option<VoiceActivityData>)
        ensures
            activity == match user_of(self.ssrc_to_user_id@, ssrc) {
                Some(user_id) => Some(VoiceActivityData { user_id, speaking: true }),
                None => None,
            },
    {
        match self.user_id_from_ssrc(ssrc) {
            Some(user_id) => Some(VoiceActivityData { user_id, speaking: true }),
            None => None,
        }
    }

    /// A decoded audio packet arrived on a stream.
    pub fn on_audio(
        &self,
        discord_audio: &[DiscordAudioSample],
        timestamp: DiscordRtcTimestamp,
        ssrc: Ssrc,
    ) -> (data: Option<DiscordAudioData>)
        ensures
            user_of(self.ssrc_to_user_id@, ssrc).is_none() ==> data.is_none(),
            user_of(self.ssrc_to_user_id@, ssrc) matches Some(user_id) ==> (data matches Some(d)
                && d.user_id == user_id && d.discord_audio@ == discord_audio@ && d.rtc_timestamp
                == timestamp),
    {
        match self.user_id_from_ssrc(ssrc) {
            Some(user_id) => {
                let mut copy: Vec<DiscordAudioSample> = Vec::with_capacity(discord_audio.len());
                let n = discord_audio.len();
                for i in 0..n
                    invariant
                        n == discord_audio@.len(),
                        copy@ == discord_audio@.subrange(0, i as int),
                {
                    copy.push(discord_audio[i]);
                    assert(copy@ =~= discord_audio@.subrange(0, i + 1));
                }
                assert(discord_audio@.subrange(0, n as int) =~= discord_audio@);
                Some(DiscordAudioData { user_id, discord_audio: copy, rtc_timestamp: timestamp })
            },
            None => None,
        }
    }

    /// Fired when a user stops talking.  Here, "stops talking" means
    /// the driver has noticed 5 continuous packets (100ms) of silence.
    pub fn on_stop_talking(&self, ssrc: Ssrc) -> (activity: Option<VoiceActivityData>)
        ensures
            activity == match user_of(self.ssrc_to_user_id@, ssrc) {
                Some(user_id) => Some(VoiceActivityData { user_id, speaking: false }),
                None => None,
            },
    {
        match self.user_id_from_ssrc(ssrc) {
            Some(user_id) => Some(VoiceActivityData { user_id, speaking: false }),
            None => None,
        }
    }

    /// Fired when a user leaves the voice channel.
    ///
    /// We don't need to remove the SSRC from the map, since if another user
    /// comes in with that SSRC, we'll just overwrite the old user ID with
    /// the new one.  Also, there's a chance that we might get other events
    /// for this user after they leave, so we don't want to remove them from
    /// the map just yet.
    pub fn on_user_leave(&self, user_id: UserId) -> (event: VoiceChannelEvent)
        ensures
            event == VoiceChannelEvent::UserJoin(UserJoinData { user_id, joined: false }),
    {
        VoiceChannelEvent::UserJoin(UserJoinData { user_id, joined: false })
    }

    pub fn user_id_from_ssrc(&self, ssrc: Ssrc) -> (user: Option<UserId>)
        ensures
            user == user_of(self.ssrc_to_user_id@, ssrc),
    {
        match self.ssrc_to_user_id.get(&ssrc) {
            Some(user_id) => Some(*user_id),
            None => None,
        }
    }
}

} // verus!
