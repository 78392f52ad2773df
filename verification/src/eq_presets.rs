//! The equalizer profile store: for each output device a set of named presets
//! and the one in use, and for each microphone its processing settings. The
//! configurations themselves are opaque here (`C` for output devices, `M` for
//! microphones); the store decides which one is kept, listed and applied.
use vstd::prelude::*;

use crate::equalizer_apo::{
    empty_plugin_folder_message, plugin_folder_check,
    invalid_device_id_message, invalid_device_name_message, preset_name_check, single_line_text,
    unit_result, validate_device_id, validate_device_name, validate_preset_name, EqPresetCatalog,
};
use crate::device::opt_view;
use crate::str_map::StrMap;
use crate::text::{append_str, str_equal};

verus! {

/// Name of the preset that receives an output's configuration when it has none.
pub open spec fn current_preset_name() -> Seq<char> {
    "当前音色"@
}

/// Name of the single preset listed for a device that has no profile yet.
pub open spec fn default_preset_name() -> Seq<char> {
    "默认"@
}

/// Message when a device has no stored profile.
pub open spec fn no_profile_message() -> Seq<char> {
    "该输出设备还没有保存音色预设"@
}

/// Message when the last preset of a device would be deleted.
pub open spec fn last_preset_message() -> Seq<char> {
    "至少需要保留一个音色预设"@
}

/// Message for a preset that does not exist.
pub open spec fn missing_preset_message(name: Seq<char>) -> Seq<char> {
    "音色预设「"@ + name + "」不存在"@
}

/// Builds the message for a preset that does not exist.
pub fn missing_preset_text(name: &str) -> (res: String)
    ensures
        res@ == missing_preset_message(name@),
{
    let mut s = String::from_str("音色预设「");
    append_str(&mut s, name);
    append_str(&mut s, "」不存在");
    s
}

/// The presets of one output device, and the active one. The configuration
/// applied to the device is always that of the active preset.
pub struct EndpointProfile<C> {
    pub device_name: String,
    pub presets: StrMap<C>,
    pub active_preset: String,
}

impl<C> EndpointProfile<C> {
    /// The presets are well ordered and the active preset is one of them.
    pub open spec fn wf(&self) -> bool {
        self.presets.wf() && self.presets.has(self.active_preset@)
    }

    /// The configuration in effect on the device.
    pub open spec fn active_config(&self) -> C {
        self.presets.value(self.active_preset@)
    }

    /// The configuration in effect on the device.
    pub fn config(&self) -> (res: &C)
        requires
            self.wf(),
        ensures
            *res == self.active_config(),
    {
        let i = self.presets.find(self.active_preset.as_str()).unwrap();
        &self.presets.entries[i].1
    }

    /// The catalog shown for this device: the active preset and all preset
    /// names in ascending order.
    pub fn catalog(&self) -> (res: EqPresetCatalog)
        ensures
            res.active_preset@ == self.active_preset@,
            res.presets@.map_values(|s: String| s@) == self.presets.key_list(),
    {
        EqPresetCatalog { active_preset: self.active_preset.clone(), presets: self.presets.keys() }
    }
}

/// The active preset chosen when a profile is loaded: the stored one when it
/// names a preset, else the first preset in order.
pub open spec fn loaded_active<C>(presets: StrMap<C>, active: Option<Seq<char>>) -> Seq<char> {
    match active {
        Some(a) if presets.has(a) => a,
        _ => presets.first_key()->0,
    }
}

/// Brings a profile read from disk into shape: a profile without presets gets
/// its configuration as the preset "当前音色", and a missing or unknown active
/// preset is replaced by the first preset in order. The stored configuration
/// is then that of the active preset.
pub fn migrate_endpoint_profile<C>(
    device_name: String,
    config: C,
    presets: StrMap<C>,
    active_preset: Option<String>,
) -> (res: EndpointProfile<C>)
    requires
        presets.wf(),
    ensures
        res.wf(),
        res.device_name == device_name,
        presets.size() == 0 ==> {
            &&& res.presets.size() == 1
            &&& res.presets.has(current_preset_name())
            &&& res.presets.value(current_preset_name()) == config
            &&& res.active_preset@ == current_preset_name()
        },
        presets.size() > 0 ==> {
            &&& res.presets == presets
            &&& res.active_preset@ == loaded_active(presets, opt_view(active_preset))
        },
{
    let mut presets = presets;
    if presets.len() == 0 {
        presets.insert(String::from_str("当前音色"), config);
        let ghost k = current_preset_name();
        return EndpointProfile {
            device_name,
            presets,
            active_preset: String::from_str("当前音色"),
        };
    }
    let active = match active_preset {
        Some(a) => {
            if presets.contains_key(a.as_str()) {
                a
            } else {
                presets.first().unwrap().clone()
            }
        },
        None => presets.first().unwrap().clone(),
    };
    proof {
        presets.lemma_index_of(0);
    }
    EndpointProfile { device_name, presets, active_preset: active }
}

/// A microphone and its processing settings.
pub struct MicrophoneProfile<M> {
    pub device_name: String,
    pub config: M,
}

/// Everything the equalizer page stores.
pub struct ProfileStore<C, M> {
    pub endpoints: StrMap<EndpointProfile<C>>,
    pub microphones: StrMap<MicrophoneProfile<M>>,
    pub rnnoise_plugin_directory: Option<String>,
}

/// The outcome of the checks that every request on a device's presets runs
/// first: the device identifier, then the preset name.
pub open spec fn preset_request_check(device_id: Seq<char>, preset_name: Seq<char>) -> Result<
    (),
    Seq<char>,
> {
    if !single_line_text(device_id) {
        Err(invalid_device_id_message())
    } else {
        preset_name_check(preset_name)
    }
}

/// The outcome of the checks run before saving: device identifier, device
/// name, then preset name.
pub open spec fn save_request_check(
    device_id: Seq<char>,
    device_name: Seq<char>,
    preset_name: Seq<char>,
) -> Result<(), Seq<char>> {
    if !single_line_text(device_id) {
        Err(invalid_device_id_message())
    } else if !single_line_text(device_name) {
        Err(invalid_device_name_message())
    } else {
        preset_name_check(preset_name)
    }
}

/// The outcome of the checks run before storing a device's configuration:
/// device identifier, then device name.
pub open spec fn device_request_check(device_id: Seq<char>, device_name: Seq<char>) -> Result<
    (),
    Seq<char>,
> {
    if !single_line_text(device_id) {
        Err(invalid_device_id_message())
    } else if !single_line_text(device_name) {
        Err(invalid_device_name_message())
    } else {
        Ok(())
    }
}

/// Runs the checks of a preset request.
pub fn check_preset_request(device_id: &str, preset_name: &str) -> (res: Result<(), String>)
    ensures
        unit_result(res) == preset_request_check(device_id@, preset_name@),
{
    match validate_device_id(device_id) {
        Err(e) => Err(e),
        Ok(()) => validate_preset_name(preset_name),
    }
}

/// Runs the checks of a save request.
pub fn check_save_request(device_id: &str, device_name: &str, preset_name: &str) -> (res: Result<
    (),
    String,
>)
    ensures
        unit_result(res) == save_request_check(device_id@, device_name@, preset_name@),
{
    match validate_device_id(device_id) {
        Err(e) => Err(e),
        Ok(()) => match validate_device_name(device_name) {
            Err(e) => Err(e),
            Ok(()) => validate_preset_name(preset_name),
        },
    }
}

/// Runs the checks of a request that stores a device's configuration.
pub fn check_device_request(device_id: &str, device_name: &str) -> (res: Result<(), String>)
    ensures
        unit_result(res) == device_request_check(device_id@, device_name@),
{
    match validate_device_id(device_id) {
        Err(e) => Err(e),
        Ok(()) => validate_device_name(device_name),
    }
}

/// What `list_presets` answers.
pub open spec fn catalog_view(c: EqPresetCatalog) -> (Seq<char>, Seq<Seq<char>>) {
    (c.active_preset@, c.presets@.map_values(|s: String| s@))
}

impl<C, M> ProfileStore<C, M> {
    /// Maps are ordered and every output profile is well formed.
    pub open spec fn wf(&self) -> bool {
        &&& self.endpoints.wf()
        &&& self.microphones.wf()
        &&& forall|k: Seq<char>| #[trigger]
            self.endpoints.has(k) ==> self.endpoints.value(k).wf()
    }

    /// The profile of a device, if it has one.
    pub open spec fn endpoint(&self, device_id: Seq<char>) -> Option<EndpointProfile<C>> {
        if self.endpoints.has(device_id) {
            Some(self.endpoints.value(device_id))
        } else {
            None
        }
    }

    /// Every device other than `device_id` keeps its profile, and the
    /// microphones and the plugin folder are unchanged.
    pub open spec fn same_except(&self, other: &Self, device_id: Seq<char>) -> bool {
        &&& forall|k: Seq<char>| k != device_id ==> #[trigger] self.endpoint(k) == other.endpoint(k)
        &&& self.microphones == other.microphones
        &&& self.rnnoise_plugin_directory == other.rnnoise_plugin_directory
    }

    /// The catalog listed for a device: its own presets, or the single
    /// preset "默认" when it has no profile.
    pub open spec fn catalog_of(&self, device_id: Seq<char>) -> (Seq<char>, Seq<Seq<char>>) {
        match self.endpoint(device_id) {
            Some(p) => (p.active_preset@, p.presets.key_list()),
            None => (default_preset_name(), seq![default_preset_name()]),
        }
    }

    /// What reading a preset gives: the stored configuration, `None` for the
    /// built-in default of a device without profile, or the error.
    pub open spec fn preset_lookup(&self, device_id: Seq<char>, preset_name: Seq<char>) -> Result<
        Option<C>,
        Seq<char>,
    > {
        match preset_request_check(device_id, preset_name) {
            Err(e) => Err(e),
            Ok(()) => match self.endpoint(device_id) {
                Some(p) => if p.presets.has(preset_name) {
                    Ok(Some(p.presets.value(preset_name)))
                } else {
                    Err(missing_preset_message(preset_name))
                },
                None => if preset_name == default_preset_name() {
                    Ok(None)
                } else {
                    Err(missing_preset_message(preset_name))
                },
            },
        }
    }

    /// An empty store.
    pub fn new() -> (res: Self)
        ensures
            res.wf(),
            forall|k: Seq<char>| #[trigger] res.endpoint(k) is None,
            res.microphones.size() == 0,
            res.rnnoise_plugin_directory is None,
    {
        ProfileStore { endpoints: StrMap::new(), microphones: StrMap::new(), rnnoise_plugin_directory: None }
    }
}

impl<C, M> ProfileStore<C, M> {
    /// The presets that `device_id` had before a change, as seen after it:
    /// apart from `name`, the new profile holds exactly the presets of the
    /// old one (none if there was no profile), with the same configurations.
    pub open spec fn other_presets_kept(
        old: &Self,
        new_profile: EndpointProfile<C>,
        device_id: Seq<char>,
        name: Seq<char>,
    ) -> bool {
        forall|k: Seq<char>|
            k != name ==> {
                &&& #[trigger] new_profile.presets.has(k) == (old.endpoint(device_id) is Some
                    && old.endpoint(device_id)->0.presets.has(k))
                &&& new_profile.presets.has(k) ==> new_profile.presets.value(k)
                    == old.endpoint(device_id)->0.presets.value(k)
            }
    }

    /// `new` is `old` after storing `config` as preset `name` of `device_id`
    /// (named `device_name`) and making it the active preset.
    pub open spec fn saved(
        old: &Self,
        new: &Self,
        device_id: Seq<char>,
        device_name: Seq<char>,
        name: Seq<char>,
        config: C,
    ) -> bool {
        &&& new.same_except(old, device_id)
        &&& new.endpoint(device_id) is Some
        &&& new.endpoint(device_id)->0.device_name@ == device_name
        &&& new.endpoint(device_id)->0.active_preset@ == name
        &&& new.endpoint(device_id)->0.presets.has(name)
        &&& new.endpoint(device_id)->0.presets.value(name) == config
        &&& Self::other_presets_kept(old, new.endpoint(device_id)->0, device_id, name)
    }

    /// The preset that receives a configuration stored for the device as a
    /// whole: its active preset, or "当前音色" for a new profile.
    pub open spec fn target_preset(&self, device_id: Seq<char>) -> Seq<char> {
        match self.endpoint(device_id) {
            Some(p) => p.active_preset@,
            None => current_preset_name(),
        }
    }

    /// What activating a preset answers.
    pub open spec fn activate_outcome(&self, device_id: Seq<char>, name: Seq<char>) -> Result<
        (),
        Seq<char>,
    > {
        match preset_request_check(device_id, name) {
            Err(e) => Err(e),
            Ok(()) => match self.endpoint(device_id) {
                None => Err(no_profile_message()),
                Some(p) => if p.presets.has(name) {
                    Ok(())
                } else {
                    Err(missing_preset_message(name))
                },
            },
        }
    }

    /// `new` is `old` after making preset `name` the active one of
    /// `device_id`; nothing else changes.
    pub open spec fn activated(old: &Self, new: &Self, device_id: Seq<char>, name: Seq<char>) -> bool {
        &&& new.same_except(old, device_id)
        &&& new.endpoint(device_id) is Some
        &&& new.endpoint(device_id)->0.presets == old.endpoint(device_id)->0.presets
        &&& new.endpoint(device_id)->0.device_name == old.endpoint(device_id)->0.device_name
        &&& new.endpoint(device_id)->0.active_preset@ == name
    }

    /// What deleting a preset answers.
    pub open spec fn delete_outcome(&self, device_id: Seq<char>, name: Seq<char>) -> Result<
        (),
        Seq<char>,
    > {
        match preset_request_check(device_id, name) {
            Err(e) => Err(e),
            Ok(()) => match self.endpoint(device_id) {
                None => Err(no_profile_message()),
                Some(p) => if p.presets.size() <= 1 {
                    Err(last_preset_message())
                } else if !p.presets.has(name) {
                    Err(missing_preset_message(name))
                } else {
                    Ok(())
                },
            },
        }
    }

    /// `new` is `old` after deleting preset `name` of `device_id`: the other
    /// presets stay, and when the deleted one was active the first remaining
    /// preset in order becomes active.
    pub open spec fn deleted(old: &Self, new: &Self, device_id: Seq<char>, name: Seq<char>) -> bool {
        let q = old.endpoint(device_id)->0;
        let p = new.endpoint(device_id)->0;
        &&& new.same_except(old, device_id)
        &&& new.endpoint(device_id) is Some
        &&& p.device_name == q.device_name
        &&& !p.presets.has(name)
        &&& p.presets.size() == q.presets.size() - 1
        &&& Self::other_presets_kept(old, p, device_id, name)
        &&& p.active_preset@ == if q.active_preset@ == name {
            p.presets.first_key()->0
        } else {
            q.active_preset@
        }
    }

    /// Takes the profile of a device out of the store.
    fn take_endpoint(&mut self, device_id: &str) -> (res: Option<EndpointProfile<C>>)
        requires
            old(self).wf(),
        ensures
            final(self).wf(),
            res == old(self).endpoint(device_id@),
            final(self).endpoint(device_id@) is None,
            final(self).same_except(old(self), device_id@),
    {
        let res = self.endpoints.remove(device_id);
        proof {
            assert forall|k: Seq<char>| k != device_id@ implies #[trigger] self.endpoint(k) == old(
                self,
            ).endpoint(k) by {
                assert(self.endpoints.has(k) == old(self).endpoints.has(k));
            }
            assert forall|k: Seq<char>| #[trigger] self.endpoints.has(k) implies self.endpoints.value(
                k,
            ).wf() by {
                assert(old(self).endpoints.has(k));
            }
        }
        res
    }

    /// Puts a profile back under a device.
    fn put_endpoint(&mut self, device_id: &str, profile: EndpointProfile<C>)
        requires
            old(self).wf(),
            profile.wf(),
        ensures
            final(self).wf(),
            final(self).endpoint(device_id@) == Some(profile),
            final(self).same_except(old(self), device_id@),
    {
        let ghost p = profile;
        self.endpoints.insert(String::from_str(device_id), profile);
        proof {
            assert forall|k: Seq<char>| k != device_id@ implies #[trigger] self.endpoint(k) == old(
                self,
            ).endpoint(k) by {
                assert(self.endpoints.has(k) == old(self).endpoints.has(k));
            }
            assert forall|k: Seq<char>| #[trigger] self.endpoints.has(k) implies self.endpoints.value(
                k,
            ).wf() by {
                if k != device_id@ {
                    assert(old(self).endpoints.has(k));
                }
            }
        }
    }
}

/// Lists the presets of an output device. A device without a profile lists
/// the single preset "默认".
pub fn list_presets<C, M>(store: &ProfileStore<C, M>, device_id: &str) -> (res: Result<
    EqPresetCatalog,
    String,
>)
    requires
        store.wf(),
    ensures
        match res {
            Ok(c) => single_line_text(device_id@) && catalog_view(c) == store.catalog_of(device_id@),
            Err(e) => !single_line_text(device_id@) && e@ == invalid_device_id_message(),
        },
{
    match validate_device_id(device_id) {
        Err(e) => Err(e),
        Ok(()) => match store.endpoints.get(device_id) {
            Some(p) => Ok(p.catalog()),
            None => {
                let mut presets: Vec<String> = Vec::new();
                presets.push(String::from_str("默认"));
                proof {
                    assert(presets@.map_values(|s: String| s@) =~= seq![default_preset_name()]);
                }
                Ok(EqPresetCatalog { active_preset: String::from_str("默认"), presets })
            },
        },
    }
}

/// Reads a preset of an output device. `Ok(None)` stands for the built-in
/// default configuration, read as preset "默认" of a device without profile.
pub fn get_preset<'a, C, M>(store: &'a ProfileStore<C, M>, device_id: &str, preset_name: &str) -> (res:
    Result<Option<&'a C>, String>)
    requires
        store.wf(),
    ensures
        match res {
            Ok(Some(c)) => store.preset_lookup(device_id@, preset_name@) == Ok::<Option<C>, Seq<char>>(
                Some(*c),
            ),
            Ok(None) => store.preset_lookup(device_id@, preset_name@) == Ok::<Option<C>, Seq<char>>(
                None,
            ),
            Err(e) => store.preset_lookup(device_id@, preset_name@) == Err::<Option<C>, Seq<char>>(
                e@,
            ),
        },
{
    match check_preset_request(device_id, preset_name) {
        Err(e) => Err(e),
        Ok(()) => match store.endpoints.get(device_id) {
            Some(p) => match p.presets.get(preset_name) {
                Some(c) => Ok(Some(c)),
                None => Err(missing_preset_text(preset_name)),
            },
            None => {
                if str_equal(preset_name, "默认") {
                    Ok(None)
                } else {
                    Err(missing_preset_text(preset_name))
                }
            },
        },
    }
}

/// Reads the configuration in effect on an output device: that of its active
/// preset, or `Ok(None)` for the built-in default when it has no profile.
pub fn get_endpoint_eq<'a, C, M>(store: &'a ProfileStore<C, M>, device_id: &str) -> (res: Result<
    Option<&'a C>,
    String,
>)
    requires
        store.wf(),
    ensures
        match res {
            Ok(Some(c)) => single_line_text(device_id@) && store.endpoint(device_id@) is Some
                && *c == store.endpoint(device_id@)->0.active_config(),
            Ok(None) => single_line_text(device_id@) && store.endpoint(device_id@) is None,
            Err(e) => !single_line_text(device_id@) && e@ == invalid_device_id_message(),
        },
{
    match validate_device_id(device_id) {
        Err(e) => Err(e),
        Ok(()) => match store.endpoints.get(device_id) {
            Some(p) => Ok(Some(p.config())),
            None => Ok(None),
        },
    }
}

/// Reads the stored settings of a microphone: `Ok(None)` when it was never
/// configured (its settings are then the defaults).
pub fn get_microphone_config<'a, C, M>(store: &'a ProfileStore<C, M>, device_id: &str) -> (res:
    Result<Option<&'a M>, String>)
    requires
        store.wf(),
    ensures
        match res {
            Ok(Some(m)) => single_line_text(device_id@) && store.microphones.has(device_id@)
                && *m == store.microphones.value(device_id@).config,
            Ok(None) => single_line_text(device_id@) && !store.microphones.has(device_id@),
            Err(e) => !single_line_text(device_id@) && e@ == invalid_device_id_message(),
        },
{
    match validate_device_id(device_id) {
        Err(e) => Err(e),
        Ok(()) => match store.microphones.get(device_id) {
            Some(p) => Ok(Some(&p.config)),
            None => Ok(None),
        },
    }
}

/// Saves `config` as preset `preset_name` of an output device, creating the
/// device's profile when needed, and makes it the active preset.
pub fn save_preset<C, M>(
    store: &mut ProfileStore<C, M>,
    device_id: &str,
    device_name: &str,
    preset_name: &str,
    config: C,
) -> (res: Result<(), String>)
    requires
        old(store).wf(),
    ensures
        final(store).wf(),
        unit_result(res) == save_request_check(device_id@, device_name@, preset_name@),
        res is Err ==> *final(store) == *old(store),
        res is Ok ==> ProfileStore::saved(
            old(store),
            final(store),
            device_id@,
            device_name@,
            preset_name@,
            config,
        ),
{
    match check_save_request(device_id, device_name, preset_name) {
        Err(e) => return Err(e),
        Ok(()) => {},
    }
    let ghost before = *store;
    let mut profile = match store.take_endpoint(device_id) {
        Some(p) => p,
        None => EndpointProfile {
            device_name: String::new(),
            presets: StrMap::new(),
            active_preset: String::new(),
        },
    };
    let ghost old_presets = profile.presets;
    profile.device_name = String::from_str(device_name);
    profile.presets.insert(String::from_str(preset_name), config);
    profile.active_preset = String::from_str(preset_name);
    store.put_endpoint(device_id, profile);
    proof {
        let p = store.endpoint(device_id@)->0;
        assert forall|k: Seq<char>| k != preset_name@ implies {
            &&& #[trigger] p.presets.has(k) == (before.endpoint(device_id@) is Some
                && before.endpoint(device_id@)->0.presets.has(k))
            &&& p.presets.has(k) ==> p.presets.value(k) == before.endpoint(device_id@)->0.presets.value(k)
        } by {
            assert(p.presets.has(k) == old_presets.has(k));
        }
    }
    Ok(())
}

/// Stores `config` for an output device as a whole: it replaces the active
/// preset, or becomes preset "当前音色" of a new profile.
pub fn set_endpoint_eq<C, M>(
    store: &mut ProfileStore<C, M>,
    device_id: &str,
    device_name: &str,
    config: C,
) -> (res: Result<(), String>)
    requires
        old(store).wf(),
    ensures
        final(store).wf(),
        unit_result(res) == device_request_check(device_id@, device_name@),
        res is Err ==> *final(store) == *old(store),
        res is Ok ==> ProfileStore::saved(
            old(store),
            final(store),
            device_id@,
            device_name@,
            old(store).target_preset(device_id@),
            config,
        ),
{
    match check_device_request(device_id, device_name) {
        Err(e) => return Err(e),
        Ok(()) => {},
    }
    let ghost before = *store;
    let ghost target = store.target_preset(device_id@);
    let mut profile = match store.take_endpoint(device_id) {
        Some(p) => p,
        None => EndpointProfile {
            device_name: String::new(),
            presets: StrMap::new(),
            active_preset: String::from_str("当前音色"),
        },
    };
    let ghost old_presets = profile.presets;
    profile.device_name = String::from_str(device_name);
    let name = profile.active_preset.clone();
    profile.presets.insert(name, config);
    store.put_endpoint(device_id, profile);
    proof {
        let p = store.endpoint(device_id@)->0;
        assert forall|k: Seq<char>| k != target implies {
            &&& #[trigger] p.presets.has(k) == (before.endpoint(device_id@) is Some
                && before.endpoint(device_id@)->0.presets.has(k))
            &&& p.presets.has(k) ==> p.presets.value(k) == before.endpoint(device_id@)->0.presets.value(k)
        } by {
            assert(p.presets.has(k) == old_presets.has(k));
        }
    }
    Ok(())
}

/// Makes an existing preset the active one of an output device.
pub fn activate_preset<C, M>(store: &mut ProfileStore<C, M>, device_id: &str, preset_name: &str) -> (res:
    Result<(), String>)
    requires
        old(store).wf(),
    ensures
        final(store).wf(),
        unit_result(res) == old(store).activate_outcome(device_id@, preset_name@),
        res is Err ==> *final(store) == *old(store),
        res is Ok ==> ProfileStore::activated(old(store), final(store), device_id@, preset_name@),
{
    match check_preset_request(device_id, preset_name) {
        Err(e) => return Err(e),
        Ok(()) => {},
    }
    match store.endpoints.get(device_id) {
        None => return Err(String::from_str("该输出设备还没有保存音色预设")),
        Some(p) => {
            if !p.presets.contains_key(preset_name) {
                return Err(missing_preset_text(preset_name));
            }
        },
    }
    let mut profile = store.take_endpoint(device_id).unwrap();
    profile.active_preset = String::from_str(preset_name);
    store.put_endpoint(device_id, profile);
    Ok(())
}

/// Deletes a preset of an output device and answers the new catalog. The
/// last preset is never deleted; when the active preset goes, the first
/// remaining one in order becomes active.
pub fn delete_preset<C, M>(store: &mut ProfileStore<C, M>, device_id: &str, preset_name: &str) -> (res:
    Result<EqPresetCatalog, String>)
    requires
        old(store).wf(),
    ensures
        final(store).wf(),
        match res {
            Ok(c) => {
                &&& old(store).delete_outcome(device_id@, preset_name@) is Ok
                &&& ProfileStore::deleted(old(store), final(store), device_id@, preset_name@)
                &&& catalog_view(c) == final(store).catalog_of(device_id@)
            },
            Err(e) => {
                &&& old(store).delete_outcome(device_id@, preset_name@) == Err::<(), Seq<char>>(e@)
                &&& *final(store) == *old(store)
            },
        },
{
    match check_preset_request(device_id, preset_name) {
        Err(e) => return Err(e),
        Ok(()) => {},
    }
    match store.endpoints.get(device_id) {
        None => return Err(String::from_str("该输出设备还没有保存音色预设")),
        Some(p) => {
            if p.presets.len() <= 1 {
                return Err(String::from_str("至少需要保留一个音色预设"));
            }
            if !p.presets.contains_key(preset_name) {
                return Err(missing_preset_text(preset_name));
            }
        },
    }
    let ghost before = *store;
    let mut profile = store.take_endpoint(device_id).unwrap();
    let ghost q = profile;
    let _ = profile.presets.remove(preset_name);
    if str_equal(profile.active_preset.as_str(), preset_name) {
        let next = profile.presets.first().unwrap().clone();
        profile.active_preset = next;
        proof {
            profile.presets.lemma_index_of(0);
        }
    }
    proof {
        assert forall|k: Seq<char>| k != preset_name@ implies {
            &&& #[trigger] profile.presets.has(k) == (before.endpoint(device_id@) is Some
                && before.endpoint(device_id@)->0.presets.has(k))
            &&& profile.presets.has(k) ==> profile.presets.value(k) == before.endpoint(
                device_id@,
            )->0.presets.value(k)
        } by {
            assert(profile.presets.has(k) == q.presets.has(k));
        }
        if q.active_preset@ != preset_name@ {
            assert(profile.presets.has(q.active_preset@) == q.presets.has(q.active_preset@));
        }
    }
    let catalog = profile.catalog();
    store.put_endpoint(device_id, profile);
    Ok(catalog)
}

/// Stores the settings of a microphone under its identifier.
pub fn set_microphone_config<C, M>(
    store: &mut ProfileStore<C, M>,
    device_id: &str,
    device_name: &str,
    config: M,
) -> (res: Result<(), String>)
    requires
        old(store).wf(),
    ensures
        final(store).wf(),
        unit_result(res) == device_request_check(device_id@, device_name@),
        res is Err ==> *final(store) == *old(store),
        res is Ok ==> {
            &&& final(store).endpoints == old(store).endpoints
            &&& final(store).rnnoise_plugin_directory == old(store).rnnoise_plugin_directory
            &&& final(store).microphones.has(device_id@)
            &&& final(store).microphones.value(device_id@).device_name@ == device_name@
            &&& final(store).microphones.value(device_id@).config == config
            &&& forall|k: Seq<char>| k != device_id@ ==> {
                &&& #[trigger] final(store).microphones.has(k) == old(store).microphones.has(k)
                &&& old(store).microphones.has(k) ==> final(store).microphones.value(k)
                    == old(store).microphones.value(k)
            }
        },
{
    match check_device_request(device_id, device_name) {
        Err(e) => return Err(e),
        Ok(()) => {},
    }
    store.microphones.insert(
        String::from_str(device_id),
        MicrophoneProfile { device_name: String::from_str(device_name), config },
    );
    Ok(())
}

/// Remembers the folder the user chose for the RNNoise plugins, provided it
/// holds at least one of them.
pub fn choose_rnnoise_plugin_directory<C, M>(
    store: &mut ProfileStore<C, M>,
    directory: &str,
    mono_found: bool,
    stereo_found: bool,
) -> (res: Result<(), String>)
    requires
        old(store).wf(),
    ensures
        final(store).wf(),
        unit_result(res) == if mono_found || stereo_found {
            Ok(())
        } else {
            Err(empty_plugin_folder_message())
        },
        final(store).endpoints == old(store).endpoints,
        final(store).microphones == old(store).microphones,
        res is Ok ==> final(store).rnnoise_plugin_directory is Some
            && final(store).rnnoise_plugin_directory->0@ == directory@,
        res is Err ==> final(store).rnnoise_plugin_directory == old(store).rnnoise_plugin_directory,
{
    match plugin_folder_check(mono_found, stereo_found) {
        Err(e) => Err(e),
        Ok(()) => {
            store.rnnoise_plugin_directory = Some(String::from_str(directory));
            Ok(())
        },
    }
}

// ---------------------------------------------------------------------------
// Laws
// ---------------------------------------------------------------------------

/// In a well-formed map, a key that has an entry is among the listed keys.
pub proof fn lemma_listed<V>(m: StrMap<V>, k: Seq<char>)
    requires
        m.wf(),
        m.has(k),
    ensures
        m.key_list().contains(k),
{
    let i = m.index_of(k)->0;
    assert(m.entries@[i].0@ == k);
    assert(m.key_list()[i] == k);
}

/// A preset that was just saved reads back as the saved configuration, is
/// the active preset (so it is the configuration in effect), and is listed.
pub proof fn law_saved_preset_reads_back<C, M>(
    old: ProfileStore<C, M>,
    new: ProfileStore<C, M>,
    device_id: Seq<char>,
    device_name: Seq<char>,
    preset_name: Seq<char>,
    config: C,
)
    requires
        old.wf(),
        new.wf(),
        save_request_check(device_id, device_name, preset_name) is Ok,
        ProfileStore::saved(&old, &new, device_id, device_name, preset_name, config),
    ensures
        new.preset_lookup(device_id, preset_name) == Ok::<Option<C>, Seq<char>>(Some(config)),
        new.endpoint(device_id)->0.active_config() == config,
        new.catalog_of(device_id).0 == preset_name,
        new.catalog_of(device_id).1.contains(preset_name),
{
    lemma_listed(new.endpoint(device_id)->0.presets, preset_name);
}

/// Storing a device's configuration as a whole makes it the configuration in
/// effect, under the preset that was active (or "当前音色" for a new device).
pub proof fn law_device_config_in_effect<C, M>(
    old: ProfileStore<C, M>,
    new: ProfileStore<C, M>,
    device_id: Seq<char>,
    device_name: Seq<char>,
    config: C,
)
    requires
        old.wf(),
        new.wf(),
        device_request_check(device_id, device_name) is Ok,
        ProfileStore::saved(&old, &new, device_id, device_name, old.target_preset(device_id), config),
    ensures
        new.endpoint(device_id)->0.active_config() == config,
        new.catalog_of(device_id).0 == old.target_preset(device_id),
        old.endpoint(device_id) is Some ==> new.catalog_of(device_id).0 == old.catalog_of(device_id).0,
{
}

/// After a preset is activated, it is the configuration in effect and the
/// catalog names it as active.
pub proof fn law_activated_preset_in_effect<C, M>(
    old: ProfileStore<C, M>,
    new: ProfileStore<C, M>,
    device_id: Seq<char>,
    preset_name: Seq<char>,
)
    requires
        old.wf(),
        new.wf(),
        old.activate_outcome(device_id, preset_name) is Ok,
        ProfileStore::activated(&old, &new, device_id, preset_name),
    ensures
        new.endpoint(device_id)->0.active_config() == old.endpoint(device_id)->0.presets.value(
            preset_name,
        ),
        new.catalog_of(device_id).0 == preset_name,
        new.catalog_of(device_id).1 == old.catalog_of(device_id).1,
{
}

/// Deleting a preset never leaves a device without presets or with an
/// active preset that does not exist, and the deleted preset can no longer
/// be read or listed.
pub proof fn law_delete_keeps_an_active_preset<C, M>(
    old: ProfileStore<C, M>,
    new: ProfileStore<C, M>,
    device_id: Seq<char>,
    preset_name: Seq<char>,
)
    requires
        old.wf(),
        new.wf(),
        old.delete_outcome(device_id, preset_name) is Ok,
        ProfileStore::deleted(&old, &new, device_id, preset_name),
    ensures
        new.endpoint(device_id)->0.presets.size() >= 1,
        new.catalog_of(device_id).1.contains(new.catalog_of(device_id).0),
        new.preset_lookup(device_id, preset_name) == Err::<Option<C>, Seq<char>>(
            missing_preset_message(preset_name),
        ),
        !new.catalog_of(device_id).1.contains(preset_name),
{
    let p = new.endpoint(device_id)->0;
    lemma_listed(p.presets, p.active_preset@);
    if p.presets.key_list().contains(preset_name) {
        let i = choose|i: int| 0 <= i < p.presets.key_list().len() && p.presets.key_list()[i]
            == preset_name;
        assert(p.presets.entries@[i].0@ == preset_name);
    }
}

/// A device's last preset is never deleted: the request is answered with
/// the message that one preset must stay.
pub proof fn law_last_preset_is_kept<C, M>(
    store: ProfileStore<C, M>,
    device_id: Seq<char>,
    preset_name: Seq<char>,
)
    requires
        store.wf(),
        preset_request_check(device_id, preset_name) is Ok,
        store.endpoint(device_id) is Some,
        store.endpoint(device_id)->0.presets.size() == 1,
    ensures
        store.delete_outcome(device_id, preset_name) == Err::<(), Seq<char>>(last_preset_message()),
{
}

} // verus!
