//! Sound effects by name: which file to play and how loud. Playing is left
//! to whoever owns the sound device.

use vstd::prelude::*;
use vstd::string::StringExecFns;
use crate::fixed::SCALE;

verus! {

/// A volume brought into the range from silent to full.
pub open spec fn clamped_volume(volume: i64) -> i64 {
    if volume < 0 {
        0
    } else if volume > SCALE {
        SCALE
    } else {
        volume
    }
}

/// Brings a volume into the range from silent (zero) to full (one).
pub fn clamp_volume(volume: i64) -> (v: i64)
    ensures
        v == clamped_volume(volume),
{
    if volume < 0 {
        0
    } else if volume > SCALE {
        SCALE
    } else {
        volume
    }
}

/// A sound effect: its name, the file that holds it and its volume.
pub struct SoundEffect {
    pub name: String,
    pub path: String,
    pub volume: i64,
}

impl SoundEffect {
    /// A sound effect at full volume.
    pub fn new(name: String, path: String) -> (e: SoundEffect)
        ensures
            e.name == name,
            e.path == path,
            e.volume == SCALE,
    {
        SoundEffect { name, path, volume: SCALE }
    }

    /// The same effect at the given volume, brought into range.
    pub fn with_volume(self, volume: i64) -> (e: SoundEffect)
        ensures
            e.name == self.name,
            e.path == self.path,
            e.volume == clamped_volume(volume),
    {
        SoundEffect { name: self.name, path: self.path, volume: clamp_volume(volume) }
    }
}

/// What to play: the file and the volume.
pub struct PlayRequest {
    pub path: String,
    pub volume: i64,
}

/// The first effect of the name among `effects`.
pub open spec fn effect_named(effects: Seq<SoundEffect>, name: Seq<char>) -> Option<SoundEffect>
    decreases effects.len(),
{
    if effects.len() == 0 {
        None
    } else if effects[0].name@ == name {
        Some(effects[0])
    } else {
        effect_named(effects.drop_first(), name)
    }
}

/// Where the first effect of the name stands among `effects`, or their
/// number if there is none.
pub open spec fn place_of(effects: Seq<SoundEffect>, name: Seq<char>) -> int
    decreases effects.len(),
{
    if effects.len() == 0 || effects[0].name@ == name {
        0
    } else {
        1 + place_of(effects.drop_first(), name)
    }
}

/// The place of a name lies among the effects or at their end; no effect
/// before it has the name; the effect of the name stands at it.
pub proof fn lemma_place_of(effects: Seq<SoundEffect>, name: Seq<char>)
    ensures
        0 <= place_of(effects, name) <= effects.len(),
        forall|i: int| 0 <= i < place_of(effects, name) ==> (#[trigger] effects[i]).name@ != name,
        place_of(effects, name) < effects.len() ==> effects[place_of(effects, name)].name@ == name
            && effect_named(effects, name) == Some(effects[place_of(effects, name)]),
        place_of(effects, name) == effects.len() ==> effect_named(effects, name) is None,
    decreases effects.len(),
{
    if effects.len() == 0 || effects[0].name@ == name {
    } else {
        let rest = effects.drop_first();
        lemma_place_of(rest, name);
        assert forall|i: int| 0 <= i < place_of(effects, name) implies (#[trigger] effects[i]).name@
            != name by {
            if i > 0 {
                assert(effects[i] == rest[i - 1]);
            }
        }
        if place_of(effects, name) < effects.len() {
            assert(effects[place_of(effects, name)] == rest[place_of(rest, name)]);
        }
    }
}

/// The first place from which on no earlier effect has the name is the
/// place of the name.
pub proof fn lemma_place_found(effects: Seq<SoundEffect>, name: Seq<char>, i: int)
    requires
        0 <= i <= effects.len(),
        forall|k: int| 0 <= k < i ==> (#[trigger] effects[k]).name@ != name,
        i < effects.len() ==> effects[i].name@ == name,
    ensures
        place_of(effects, name) == i,
    decreases effects.len(),
{
    if effects.len() == 0 {
    } else if i == 0 {
    } else {
        let rest = effects.drop_first();
        assert(effects[0].name@ != name);
        assert forall|k: int| 0 <= k < i - 1 implies (#[trigger] rest[k]).name@ != name by {
            assert(rest[k] == effects[k + 1]);
        }
        if i - 1 < rest.len() {
            assert(rest[i - 1] == effects[i]);
        }
        lemma_place_found(rest, name, i - 1);
    }
}

/// The sound effects that can be played, and the volume of them all.
pub struct SoundManager {
    pub effects: Vec<SoundEffect>,
    pub master_volume: i64,
}

impl SoundManager {
    /// The effect that is registered under `name`.
    pub open spec fn effect(&self, name: Seq<char>) -> Option<SoundEffect> {
        effect_named(self.effects@, name)
    }

    /// What is played for `name`: its file, at its volume times the volume
    /// of all, between silent and full.
    pub open spec fn request_for(&self, name: Seq<char>) -> Option<(Seq<char>, int)> {
        match self.effect(name) {
            Some(e) => {
                let v = crate::fixed::fx_mul(e.volume as int, self.master_volume as int);
                Some(
                    (
                        e.path@,
                        if v < 0 {
                            0
                        } else if v > SCALE {
                            SCALE as int
                        } else {
                            v
                        },
                    ),
                )
            },
            None => None,
        }
    }

    /// The message for a name that is not registered.
    pub open spec fn not_found(name: Seq<char>) -> Seq<char> {
        "Sound effect '"@ + name + "' not found"@
    }

    /// No effects, at full volume.
    pub fn new() -> (b: SoundManager)
        ensures
            b.effects@.len() == 0,
            b.master_volume == SCALE,
            forall|name: Seq<char>| b.effect(name) is None,
    {
        SoundManager { effects: Vec::new(), master_volume: SCALE }
    }

    /// Where the effect of the name stands, or the number of effects.
    fn find(&self, name: &str) -> (i: usize)
        ensures
            i == place_of(self.effects@, name@),
            i <= self.effects@.len(),
    {
        let key: String = name.to_owned();
        let mut i: usize = 0;
        while i < self.effects.len()
            invariant
                i <= self.effects@.len(),
                key@ == name@,
                forall|k: int| 0 <= k < i ==> (#[trigger] self.effects@[k]).name@ != name@,
            decreases self.effects@.len() - i,
        {
            if self.effects[i].name == key {
                proof {
                    lemma_place_found(self.effects@, name@, i as int);
                }
                return i;
            }
            i = i + 1;
        }
        proof {
            lemma_place_found(self.effects@, name@, i as int);
        }
        i
    }

    /// Registers a sound effect at full volume under `name`, in place of
    /// any that had the name.
    pub fn register_sound(&mut self, name: String, path: String)
        ensures
            final(self).master_volume == old(self).master_volume,
            final(self).effect(name@) matches Some(e) && e.name == name && e.path == path && e.volume
                == SCALE,
            forall|other: Seq<char>| other != name@ ==> final(self).effect(other) == old(self).effect(other),
    {
        let i: usize = self.find(name.as_str());
        let ghost before: Seq<SoundEffect> = self.effects@;
        let ghost key: Seq<char> = name@;
        let effect = SoundEffect::new(name, path);
        if i < self.effects.len() {
            self.effects[i] = effect;
        } else {
            self.effects.push(effect);
        }
        proof {
            lemma_place_of(before, key);
            lemma_place_found(self.effects@, key, i as int);
            lemma_place_of(self.effects@, key);
            assert forall|other: Seq<char>| other != key implies self.effect(other) == effect_named(
                before,
                other,
            ) by {
                lemma_same_elsewhere(before, self.effects@, key, other);
            }
        }
    }

    /// What to play for `name`, or the message that there is no such effect.
    pub fn play_sound(&self, name: &str) -> (r: Result<PlayRequest, String>)
        ensures
            r is Ok <==> self.effect(name@) is Some,
            r matches Ok(p) ==> self.request_for(name@) == Some((p.path@, p.volume as int)),
            r matches Err(e) ==> e@ == Self::not_found(name@),
    {
        let i: usize = self.find(name);
        proof {
            lemma_place_of(self.effects@, name@);
        }
        if i < self.effects.len() {
            let e: &SoundEffect = &self.effects[i];
            let product: i128 = crate::fixed::scale_mul(e.volume, self.master_volume);
            let volume: i64 = if product < 0 {
                0
            } else if product > SCALE as i128 {
                SCALE
            } else {
                product as i64
            };
            Ok(PlayRequest { path: e.path.clone(), volume })
        } else {
            let message: String = "Sound effect '".to_owned().concat(name).concat("' not found");
            Err(message)
        }
    }

    /// Sets the volume of all sounds, brought into range.
    pub fn set_master_volume(&mut self, volume: i64)
        ensures
            final(self).master_volume == clamped_volume(volume),
            final(self).effects == old(self).effects,
    {
        self.master_volume = clamp_volume(volume);
    }
}

/// Replacing or adding the effect of one name changes nothing for another
/// name.
pub proof fn lemma_same_elsewhere(
    before: Seq<SoundEffect>,
    after: Seq<SoundEffect>,
    key: Seq<char>,
    other: Seq<char>,
)
    requires
        other != key,
        place_of(before, key) <= before.len(),
        place_of(before, key) < before.len() ==> after.len() == before.len() && after[place_of(before, key)].name@
            == key && forall|k: int|
            0 <= k < before.len() && k != place_of(before, key) ==> #[trigger] after[k] == before[k],
        place_of(before, key) == before.len() ==> after.len() == before.len() + 1 && after[before.len() as int].name@
            == key && forall|k: int| 0 <= k < before.len() ==> #[trigger] after[k] == before[k],
    ensures
        effect_named(after, other) == effect_named(before, other),
    decreases before.len(),
{
    lemma_place_of(before, key);
    if before.len() == 0 {
        assert(after.drop_first().len() == 0);
    } else if before[0].name@ == key {
        assert(after.drop_first() =~= before.drop_first());
    } else {
        assert(after[0] == before[0]);
        let b = before.drop_first();
        let a = after.drop_first();
        assert(place_of(b, key) == place_of(before, key) - 1);
        assert forall|k: int| 0 <= k < b.len() && k != place_of(b, key) implies #[trigger] a[k] == b[k] by {
            assert(a[k] == after[k + 1]);
            assert(b[k] == before[k + 1]);
        }
        if place_of(b, key) < b.len() {
            assert(a[place_of(b, key)] == after[place_of(before, key)]);
        } else {
            assert(a[b.len() as int] == after[before.len() as int]);
        }
        lemma_same_elsewhere(b, a, key, other);
    }
}

} // verus!
