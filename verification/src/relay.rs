//! The relay's state: its configuration, whether its server runs, and the
//! assets that were delivered to it. The server itself, which listens on a
//! port and answers requests, is the caller's; what it decides is decided
//! here.

use crate::assets::ImageData;
use crate::assets::ImageMap;
use crate::assets::ImageView;
use crate::assets::Listed;
use crate::assets::SnapshotError;
use crate::assets::distinct_keys;
use crate::assets::map_of;
use crate::assets::snapshot_listing;
use crate::assets::snapshot_of;
use vstd::prelude::*;

verus! {

/// What an `AppConfig` holds.
pub struct AppConfigView {
    pub regex_pattern: Seq<char>,
    pub output_path: Seq<char>,
    pub wait_time: u32,
    pub send_to_rust: bool,
    pub server_port: u16,
    pub save_to_file: bool,
    pub open_download: bool,
}

/// The settings of the relay.
#[derive(Debug)]
pub struct AppConfig {
    /// The pattern of the addresses whose assets are to be delivered.
    pub regex_pattern: String,
    /// The directory in which delivered assets are saved.
    pub output_path: String,
    /// How long the producer waits, in milliseconds.
    pub wait_time: u32,
    /// Whether the producer delivers to the relay.
    pub send_to_rust: bool,
    pub server_port: u16,
    /// Whether delivered assets are also saved as files.
    pub save_to_file: bool,
    /// Whether the producer is switched on.
    pub open_download: bool,
}

impl View for AppConfig {
    type V = AppConfigView;

    open spec fn view(&self) -> AppConfigView {
        AppConfigView {
            regex_pattern: self.regex_pattern@,
            output_path: self.output_path@,
            wait_time: self.wait_time,
            send_to_rust: self.send_to_rust,
            server_port: self.server_port,
            save_to_file: self.save_to_file,
            open_download: self.open_download,
        }
    }
}

impl Default for AppConfig {
    fn default() -> (r: Self)
        ensures
            r@ == (AppConfigView {
                regex_pattern: Seq::empty(),
                output_path: "downloads"@,
                wait_time: 1000,
                send_to_rust: true,
                server_port: 8080,
                save_to_file: false,
                open_download: true,
            }),
    {
        AppConfig {
            regex_pattern: String::new(),
            output_path: "downloads".to_owned(),
            wait_time: 1000,
            send_to_rust: true,
            server_port: 8080,
            save_to_file: false,
            open_download: true,
        }
    }
}

impl Clone for AppConfig {
    fn clone(&self) -> (r: Self)
        ensures
            r@ == self@,
    {
        AppConfig {
            regex_pattern: self.regex_pattern.clone(),
            output_path: self.output_path.clone(),
            wait_time: self.wait_time,
            send_to_rust: self.send_to_rust,
            server_port: self.server_port,
            save_to_file: self.save_to_file,
            open_download: self.open_download,
        }
    }
}

impl AppConfig {
    /// Sets the pattern of the addresses whose assets are to be delivered.
    pub fn set_regex_pattern(&mut self, pattern: &str)
        ensures
            final(self)@ == (AppConfigView { regex_pattern: pattern@, ..old(self)@ }),
    {
        self.regex_pattern = pattern.to_owned();
    }

    /// Sets the directory in which delivered assets are saved.
    pub fn set_output_path(&mut self, path: &str)
        ensures
            final(self)@ == (AppConfigView { output_path: path@, ..old(self)@ }),
    {
        self.output_path = path.to_owned();
    }

    /// Sets how long the producer waits, in milliseconds.
    pub fn set_wait_time(&mut self, ms: u32)
        ensures
            final(self)@ == (AppConfigView { wait_time: ms, ..old(self)@ }),
    {
        self.wait_time = ms;
    }

    /// Sets whether the producer delivers to the relay.
    pub fn set_send_to_rust(&mut self, send: bool)
        ensures
            final(self)@ == (AppConfigView { send_to_rust: send, ..old(self)@ }),
    {
        self.send_to_rust = send;
    }

    /// Sets the port of the relay's server.
    pub fn set_server_port(&mut self, port: u16)
        ensures
            final(self)@ == (AppConfigView { server_port: port, ..old(self)@ }),
    {
        self.server_port = port;
    }

    /// Sets whether delivered assets are also saved as files.
    pub fn set_save_to_file(&mut self, save: bool)
        ensures
            final(self)@ == (AppConfigView { save_to_file: save, ..old(self)@ }),
    {
        self.save_to_file = save;
    }

    /// Sets whether the producer is switched on.
    pub fn set_open_download(&mut self, save: bool)
        ensures
            final(self)@ == (AppConfigView { open_download: save, ..old(self)@ }),
    {
        self.open_download = save;
    }
}

/// Why the relay refused.
#[derive(Clone, Copy, Debug, PartialEq, Eq, Structural)]
pub enum RelayError {
    /// The relay has a controller already.
    AlreadyInitialized,
    /// The relay has no controller yet.
    NotInitialized,
    /// The server runs already.
    AlreadyRunning,
    /// A snapshot could not be written or read.
    Snapshot(SnapshotError),
}

/// What a `Controller` holds.
pub struct ControllerView {
    pub config: AppConfigView,
    pub running: bool,
    pub should_stop: bool,
    pub images: Map<Seq<char>, ImageView>,
}

/// The relay's state.
#[derive(Debug)]
pub struct Controller {
    config: AppConfig,
    running: bool,
    should_stop: bool,
    images: ImageMap,
}

impl View for Controller {
    type V = ControllerView;

    closed spec fn view(&self) -> ControllerView {
        ControllerView {
            config: self.config@,
            running: self.running,
            should_stop: self.should_stop,
            images: self.images@,
        }
    }
}

impl Controller {
    /// The assets, in the order in which their addresses first came in.
    pub closed spec fn listing(&self) -> Seq<Listed> {
        self.images.listing()
    }

    /// No address is held twice.
    pub closed spec fn wf(&self) -> bool {
        self.images.wf()
    }

    /// A relay with the given settings, whose server does not run and which
    /// holds no asset.
    pub fn new(config: AppConfig) -> (r: Self)
        ensures
            r.wf(),
            r@ == (ControllerView {
                config: config@,
                running: false,
                should_stop: false,
                images: Map::empty(),
            }),
    {
        Controller { config, running: false, should_stop: false, images: ImageMap::new() }
    }

    /// Marks the server as running and gives the port to listen on. A
    /// server that runs already is not started again.
    pub fn start_server(&mut self) -> (r: Result<u16, RelayError>)
        requires
            old(self).wf(),
        ensures
            final(self).wf(),
            match r {
                Ok(port) => !old(self)@.running && port == old(self)@.config.server_port
                    && final(self)@ == (ControllerView { running: true, ..old(self)@ }),
                Err(e) => old(self)@.running && e == RelayError::AlreadyRunning && final(self)@
                    == old(self)@,
            },
    {
        if self.running {
            return Err(RelayError::AlreadyRunning);
        }
        self.running = true;
        Ok(self.config.server_port)
    }

    /// Marks the server as not running after all, where it could not be
    /// started.
    pub fn start_failed(&mut self)
        requires
            old(self).wf(),
        ensures
            final(self).wf(),
            final(self)@ == (ControllerView { running: false, ..old(self)@ }),
    {
        self.running = false;
    }

    /// Marks the server as stopped and asks it to stop. The result says
    /// whether it ran.
    pub fn stop_server(&mut self) -> (r: bool)
        requires
            old(self).wf(),
        ensures
            final(self).wf(),
            r == old(self)@.running,
            final(self)@ == (ControllerView { running: false, should_stop: true, ..old(self)@ }),
    {
        let ran = self.running;
        self.should_stop = true;
        self.running = false;
        ran
    }

    /// Replaces the settings by what `updater` makes of them.
    pub fn update_config<F: FnOnce(AppConfig) -> AppConfig>(&mut self, updater: F)
        requires
            old(self).wf(),
            forall|c: AppConfig| updater.requires((c,)),
        ensures
            final(self).wf(),
            exists|before: AppConfig, after: AppConfig|
                before@ == old(self)@.config && updater.ensures((before,), after) && final(self)@
                    == (ControllerView { config: after@, ..old(self)@ }),
    {
        let before = self.config.clone();
        let after = updater(before);
        self.config = after;
    }

    /// The settings.
    pub fn get_config(&self) -> (r: AppConfig)
        ensures
            r@ == self@.config,
    {
        self.config.clone()
    }

    /// Whether the server is marked as running.
    pub fn is_running(&self) -> (r: bool)
        ensures
            r == self@.running,
    {
        self.running
    }

    /// Whether the server has been asked to stop.
    pub fn should_stop(&self) -> (r: bool)
        ensures
            r == self@.should_stop,
    {
        self.should_stop
    }

    /// The port of the server.
    pub fn get_port(&self) -> (r: u16)
        ensures
            r == self@.config.server_port,
    {
        self.config.server_port
    }

    /// The record of the asset with the given address, if the relay has it.
    pub fn get_image_by_url(&self, url: &str) -> (r: Option<ImageData>)
        requires
            self.wf(),
        ensures
            match r {
                Some(image) => self@.images.contains_key(url@) && image@ == self@.images[url@],
                None => !self@.images.contains_key(url@),
            },
    {
        match self.images.get(url) {
            Some(image) => Some(image.clone()),
            None => None,
        }
    }

    /// Whether the relay has the asset with the given address.
    pub fn has_image(&self, url: &str) -> (r: bool)
        requires
            self.wf(),
        ensures
            r == self@.images.contains_key(url@),
    {
        self.images.contains_key(url)
    }

    /// The assets of the relay.
    pub fn images(&self) -> (r: &ImageMap)
        requires
            self.wf(),
        ensures
            r.wf(),
            r@ == self@.images,
            r.listing() == self.listing(),
    {
        &self.images
    }

    /// A copy of all the assets.
    pub fn get_all_images(&self) -> (r: ImageMap)
        requires
            self.wf(),
        ensures
            r.wf(),
            r@ == self@.images,
            r.listing() == self.listing(),
    {
        self.images.clone()
    }

    /// Drops all the assets.
    pub fn clear_images(&mut self)
        requires
            old(self).wf(),
        ensures
            final(self).wf(),
            final(self)@ == (ControllerView { images: Map::empty(), ..old(self)@ }),
    {
        self.images.clear();
    }

    /// Drops the asset with the given address and hands back its record.
    pub fn remove_image(&mut self, url: &str) -> (r: Option<ImageData>)
        requires
            old(self).wf(),
        ensures
            final(self).wf(),
            final(self)@ == (ControllerView {
                images: old(self)@.images.remove(url@),
                ..old(self)@
            }),
            match r {
                Some(image) => old(self)@.images.contains_key(url@) && image@
                    == old(self)@.images[url@],
                None => !old(self)@.images.contains_key(url@),
            },
    {
        self.images.remove(url)
    }

    /// Stores the record under the address: a later record for an address
    /// replaces the earlier one. The result says whether there was one.
    pub fn put_image(&mut self, url: String, image: ImageData) -> (r: bool)
        requires
            old(self).wf(),
        ensures
            final(self).wf(),
            final(self)@ == (ControllerView {
                images: old(self)@.images.insert(url@, image@),
                ..old(self)@
            }),
            r == old(self)@.images.contains_key(url@),
    {
        self.images.insert(url, image)
    }

    /// Replaces all the assets by the given ones.
    pub fn set_images(&mut self, new_images: ImageMap)
        requires
            old(self).wf(),
            new_images.wf(),
        ensures
            final(self).wf(),
            final(self)@ == (ControllerView { images: new_images@, ..old(self)@ }),
            final(self).listing() == new_images.listing(),
    {
        self.images = new_images;
    }

    /// Stores every given asset: where the relay has an asset of the same
    /// address, the given one replaces it.
    pub fn add_or_update_images(&mut self, images: ImageMap)
        requires
            old(self).wf(),
        ensures
            final(self).wf(),
            final(self)@ == (ControllerView {
                images: old(self)@.images.union_prefer_right(images@),
                ..old(self)@
            }),
    {
        self.images.extend(&images);
    }

    /// The assets for which `predicate` answers yes, as a map of their own.
    pub fn filter_images<F: Fn(&String, &ImageData) -> bool>(&self, predicate: F) -> (r: ImageMap)
        requires
            self.wf(),
            forall|url: &String, image: &ImageData| predicate.requires((url, image)),
        ensures
            r.wf(),
            forall|k: Seq<char>| #[trigger]
                r@.contains_key(k) ==> self@.images.contains_key(k) && r@[k] == self@.images[k],
            forall|i: int|
                0 <= i < self.images_held().len() ==> predicate.ensures(
                    (&(#[trigger] self.images_held()[i]).url, &self.images_held()[i].image),
                    r@.contains_key(self.images_held()[i].url@),
                ),
    {
        self.images.filter(predicate)
    }

    /// The entries of the assets, in the order of the listing.
    pub closed spec fn images_held(&self) -> Seq<crate::assets::Entry> {
        self.images.held()
    }

    /// Replaces all the assets by those of a snapshot, given as the bytes of
    /// the snapshot file. Bytes that are no snapshot are refused and leave the
    /// assets as they are. What `save_images_to_file` wrote gives back the
    /// assets that it was written from.
    pub fn load_images_from_file(&mut self, contents: &[u8]) -> (r: Result<(), SnapshotError>)
        requires
            old(self).wf(),
        ensures
            final(self).wf(),
            match r {
                Ok(_) => snapshot_listing(contents@) is Some && final(self)@ == (ControllerView {
                    images: map_of(snapshot_listing(contents@)->Some_0),
                    ..old(self)@
                }),
                Err(e) => snapshot_listing(contents@) is None && final(self)@ == old(self)@ && (e
                    == SnapshotError::Decompress || e == SnapshotError::Decode),
            },
            forall|l: Seq<Listed>, level: u32|
                level <= 9 && distinct_keys(l) && contents@ == #[trigger] snapshot_of(l, level)
                    ==> r is Ok && final(self).listing() == l && final(self)@.images == map_of(l),
    {
        match ImageMap::from_snapshot(contents) {
            Ok(map) => {
                self.images = map;
                Ok(())
            },
            Err(e) => Err(e),
        }
    }

    /// The bytes of a snapshot of all the assets, compressed at the given
    /// level: what the snapshot file is to hold. There is one for every
    /// level up to 9, and none for a level above 9.
    pub fn save_images_to_file(&self, compression_level: u32) -> (r: Result<Vec<u8>, SnapshotError>)
        requires
            self.wf(),
        ensures
            match r {
                Ok(bytes) => compression_level <= 9 && bytes@ == snapshot_of(
                    self.listing(),
                    compression_level,
                ),
                Err(e) => compression_level > 9 && e == SnapshotError::Level,
            },
    {
        self.images.to_snapshot(compression_level)
    }
}

/// The relay of one run: it has a controller once `init_controller` has given
/// it one.
#[derive(Debug)]
pub struct Relay {
    controller: Option<Controller>,
}

impl View for Relay {
    type V = Option<ControllerView>;

    closed spec fn view(&self) -> Option<ControllerView> {
        match self.controller {
            Some(c) => Some(c@),
            None => None,
        }
    }
}

/// The error of a call on a relay that has no controller.
pub open spec fn without_controller<T>(r: Result<T, RelayError>) -> bool {
    r matches Err(e) && e == RelayError::NotInitialized
}

impl Relay {
    /// The assets of the controller, in the order in which their addresses
    /// first came in; nothing where there is no controller.
    pub closed spec fn listing(&self) -> Seq<Listed> {
        match self.controller {
            Some(c) => c.listing(),
            None => Seq::empty(),
        }
    }

    /// The entries of the assets, in the order of the listing.
    pub closed spec fn images_held(&self) -> Seq<crate::assets::Entry> {
        match self.controller {
            Some(c) => c.images_held(),
            None => Seq::empty(),
        }
    }

    /// The controller, if there is one, is well formed.
    pub closed spec fn wf(&self) -> bool {
        match self.controller {
            Some(c) => c.wf(),
            None => true,
        }
    }

    /// A relay without a controller.
    pub fn new() -> (r: Self)
        ensures
            r@ is None,
            r.wf(),
    {
        Relay { controller: None }
    }

    /// The controller, if the relay has one.
    pub fn get_controller(&self) -> (r: Result<&Controller, RelayError>)
        requires
            self.wf(),
        ensures
            match r {
                Ok(c) => self@ == Some(c@) && c.wf() && c.listing() == self.listing(),
                Err(e) => self@ is None && e == RelayError::NotInitialized,
            },
    {
        match &self.controller {
            Some(c) => Ok(c),
            None => Err(RelayError::NotInitialized),
        }
    }
}

/// Gives the relay its controller. A relay that has one keeps it.
pub fn init_controller(relay: &mut Relay, config: AppConfig) -> (r: Result<(), RelayError>)
    requires
        old(relay).wf(),
    ensures
        final(relay).wf(),
        match r {
            Ok(_) => old(relay)@ is None && final(relay)@ == Some(
                ControllerView {
                    config: config@,
                    running: false,
                    should_stop: false,
                    images: Map::empty(),
                },
            ),
            Err(e) => old(relay)@ is Some && e == RelayError::AlreadyInitialized && final(relay)@
                == old(relay)@,
        },
{
    if relay.controller.is_some() {
        return Err(RelayError::AlreadyInitialized);
    }
    relay.controller = Some(Controller::new(config));
    Ok(())
}

/// Marks the relay's server as running and gives the port to listen on. A
/// server that runs already is not started again.
pub fn start_server(relay: &mut Relay) -> (r: Result<u16, RelayError>)
    requires
        old(relay).wf(),
    ensures
        final(relay).wf(),
        match old(relay)@ {
            None => without_controller(r) && final(relay)@ is None,
            Some(c) => if c.running {
                r == Err::<u16, RelayError>(RelayError::AlreadyRunning) && final(relay)@ == Some(c)
            } else {
                r == Ok::<u16, RelayError>(c.config.server_port) && final(relay)@ == Some(
                    ControllerView { running: true, ..c },
                )
            },
        },
{
    match &mut relay.controller {
        Some(c) => c.start_server(),
        None => Err(RelayError::NotInitialized),
    }
}

/// Marks the relay's server as not running after all, where it could not be
/// started.
pub fn start_failed(relay: &mut Relay) -> (r: Result<(), RelayError>)
    requires
        old(relay).wf(),
    ensures
        final(relay).wf(),
        match old(relay)@ {
            None => without_controller(r) && final(relay)@ is None,
            Some(c) => r is Ok && final(relay)@ == Some(ControllerView { running: false, ..c }),
        },
{
    match &mut relay.controller {
        Some(c) => {
            c.start_failed();
            Ok(())
        },
        None => Err(RelayError::NotInitialized),
    }
}

/// Marks the relay's server as stopped and asks it to stop.
pub fn stop_server(relay: &mut Relay) -> (r: Result<(), RelayError>)
    requires
        old(relay).wf(),
    ensures
        final(relay).wf(),
        match old(relay)@ {
            None => without_controller(r) && final(relay)@ is None,
            Some(c) => r is Ok && final(relay)@ == Some(
                ControllerView { running: false, should_stop: true, ..c },
            ),
        },
{
    match &mut relay.controller {
        Some(c) => {
            c.stop_server();
            Ok(())
        },
        None => Err(RelayError::NotInitialized),
    }
}

/// The record of the asset with the given address, if the relay has it.
pub fn get_image_by_url(relay: &Relay, url: &str) -> (r: Result<Option<ImageData>, RelayError>)
    requires
        relay.wf(),
    ensures
        match relay@ {
            None => without_controller(r),
            Some(c) => r is Ok && match r->Ok_0 {
                Some(image) => c.images.contains_key(url@) && image@ == c.images[url@],
                None => !c.images.contains_key(url@),
            },
        },
{
    match &relay.controller {
        Some(c) => Ok(c.get_image_by_url(url)),
        None => Err(RelayError::NotInitialized),
    }
}

/// A copy of all the assets of the relay.
pub fn get_all_images(relay: &Relay) -> (r: Result<ImageMap, RelayError>)
    requires
        relay.wf(),
    ensures
        match relay@ {
            None => without_controller(r),
            Some(c) => r is Ok && r->Ok_0.wf() && r->Ok_0@ == c.images && r->Ok_0.listing()
                == relay.listing(),
        },
{
    match &relay.controller {
        Some(c) => Ok(c.get_all_images()),
        None => Err(RelayError::NotInitialized),
    }
}

/// Stores the record under the address in the relay: a later record for an
/// address replaces the earlier one. The result says whether there was one.
pub fn put_image(relay: &mut Relay, url: String, image: ImageData) -> (r: Result<bool, RelayError>)
    requires
        old(relay).wf(),
    ensures
        final(relay).wf(),
        match old(relay)@ {
            None => without_controller(r) && final(relay)@ is None,
            Some(c) => r == Ok::<bool, RelayError>(c.images.contains_key(url@)) && final(relay)@
                == Some(ControllerView { images: c.images.insert(url@, image@), ..c }),
        },
{
    match &mut relay.controller {
        Some(c) => Ok(c.put_image(url, image)),
        None => Err(RelayError::NotInitialized),
    }
}

/// Drops all the assets of the relay.
pub fn clear_images(relay: &mut Relay) -> (r: Result<(), RelayError>)
    requires
        old(relay).wf(),
    ensures
        final(relay).wf(),
        match old(relay)@ {
            None => without_controller(r) && final(relay)@ is None,
            Some(c) => r is Ok && final(relay)@ == Some(
                ControllerView { images: Map::empty(), ..c },
            ),
        },
{
    match &mut relay.controller {
        Some(c) => {
            c.clear_images();
            Ok(())
        },
        None => Err(RelayError::NotInitialized),
    }
}

/// Drops the asset with the given address and hands back its record.
pub fn remove_image(relay: &mut Relay, url: &str) -> (r: Result<Option<ImageData>, RelayError>)
    requires
        old(relay).wf(),
    ensures
        final(relay).wf(),
        match old(relay)@ {
            None => without_controller(r) && final(relay)@ is None,
            Some(c) => r is Ok && final(relay)@ == Some(
                ControllerView { images: c.images.remove(url@), ..c },
            ) && match r->Ok_0 {
                Some(image) => c.images.contains_key(url@) && image@ == c.images[url@],
                None => !c.images.contains_key(url@),
            },
        },
{
    match &mut relay.controller {
        Some(c) => Ok(c.remove_image(url)),
        None => Err(RelayError::NotInitialized),
    }
}

/// Whether the relay's server is marked as running.
pub fn is_server_running(relay: &Relay) -> (r: Result<bool, RelayError>)
    ensures
        match relay@ {
            None => without_controller(r),
            Some(c) => r == Ok::<bool, RelayError>(c.running),
        },
{
    match &relay.controller {
        Some(c) => Ok(c.is_running()),
        None => Err(RelayError::NotInitialized),
    }
}

/// The port of the relay's server.
pub fn get_server_port(relay: &Relay) -> (r: Result<u16, RelayError>)
    ensures
        match relay@ {
            None => without_controller(r),
            Some(c) => r == Ok::<u16, RelayError>(c.config.server_port),
        },
{
    match &relay.controller {
        Some(c) => Ok(c.get_port()),
        None => Err(RelayError::NotInitialized),
    }
}

/// Replaces the relay's settings by what `updater` makes of them.
pub fn update_config<F: FnOnce(AppConfig) -> AppConfig>(relay: &mut Relay, updater: F) -> (r: Result<
    (),
    RelayError,
>)
    requires
        old(relay).wf(),
        forall|c: AppConfig| updater.requires((c,)),
    ensures
        final(relay).wf(),
        match old(relay)@ {
            None => without_controller(r) && final(relay)@ is None,
            Some(c) => r is Ok && exists|before: AppConfig, after: AppConfig|
                before@ == c.config && updater.ensures((before,), after) && final(relay)@ == Some(
                    ControllerView { config: after@, ..c },
                ),
        },
{
    match &mut relay.controller {
        Some(c) => {
            c.update_config(updater);
            Ok(())
        },
        None => Err(RelayError::NotInitialized),
    }
}

/// Replaces all the assets of the relay by the given ones.
pub fn set_images(relay: &mut Relay, new_images: ImageMap) -> (r: Result<(), RelayError>)
    requires
        old(relay).wf(),
        new_images.wf(),
    ensures
        final(relay).wf(),
        match old(relay)@ {
            None => without_controller(r) && final(relay)@ is None,
            Some(c) => r is Ok && final(relay)@ == Some(
                ControllerView { images: new_images@, ..c },
            ) && final(relay).listing() == new_images.listing(),
        },
{
    match &mut relay.controller {
        Some(c) => {
            c.set_images(new_images);
            Ok(())
        },
        None => Err(RelayError::NotInitialized),
    }
}

/// Stores every given asset in the relay: where the relay has an asset of
/// the same address, the given one replaces it.
pub fn add_or_update_images(relay: &mut Relay, images: ImageMap) -> (r: Result<(), RelayError>)
    requires
        old(relay).wf(),
    ensures
        final(relay).wf(),
        match old(relay)@ {
            None => without_controller(r) && final(relay)@ is None,
            Some(c) => r is Ok && final(relay)@ == Some(
                ControllerView { images: c.images.union_prefer_right(images@), ..c },
            ),
        },
{
    match &mut relay.controller {
        Some(c) => {
            c.add_or_update_images(images);
            Ok(())
        },
        None => Err(RelayError::NotInitialized),
    }
}

/// Replaces all the assets of the relay by those of a snapshot, given as the
/// bytes of the snapshot file. Bytes that are no snapshot are refused and
/// leave the assets as they are. What `save_images_to_file` wrote gives back
/// the assets that it was written from.
pub fn load_images_from_file(relay: &mut Relay, contents: &[u8]) -> (r: Result<(), RelayError>)
    requires
        old(relay).wf(),
    ensures
        final(relay).wf(),
        match old(relay)@ {
            None => without_controller(r) && final(relay)@ is None,
            Some(c) => match snapshot_listing(contents@) {
                Some(l) => r is Ok && final(relay)@ == Some(
                    ControllerView { images: map_of(l), ..c },
                ),
                None => r is Err && (r->Err_0 == RelayError::Snapshot(SnapshotError::Decompress)
                    || r->Err_0 == RelayError::Snapshot(SnapshotError::Decode)) && final(relay)@
                    == Some(c),
            },
        },
        old(relay)@ is Some ==> forall|l: Seq<Listed>, level: u32|
            level <= 9 && distinct_keys(l) && contents@ == #[trigger] snapshot_of(l, level) ==> r is Ok
                && final(relay).listing() == l && final(relay)@->Some_0.images == map_of(l),
{
    match &mut relay.controller {
        Some(c) => match c.load_images_from_file(contents) {
            Ok(_) => Ok(()),
            Err(e) => Err(RelayError::Snapshot(e)),
        },
        None => Err(RelayError::NotInitialized),
    }
}

/// The bytes of a snapshot of all the assets of the relay, compressed at the
/// given level: what the snapshot file is to hold. There is one for every
/// level up to 9, and none for a level above 9.
pub fn save_images_to_file(relay: &Relay, compression_level: u32) -> (r: Result<Vec<u8>, RelayError>)
    requires
        relay.wf(),
    ensures
        match relay@ {
            None => without_controller(r),
            Some(c) => match r {
                Ok(bytes) => compression_level <= 9 && bytes@ == snapshot_of(
                    relay.listing(),
                    compression_level,
                ),
                Err(e) => compression_level > 9 && e == RelayError::Snapshot(SnapshotError::Level),
            },
        },
{
    match &relay.controller {
        Some(c) => match c.save_images_to_file(compression_level) {
            Ok(bytes) => Ok(bytes),
            Err(e) => Err(RelayError::Snapshot(e)),
        },
        None => Err(RelayError::NotInitialized),
    }
}

/// The assets of the relay for which `predicate` answers yes, as a map of
/// their own.
pub fn filter_images<F: Fn(&String, &ImageData) -> bool>(relay: &Relay, predicate: F) -> (r: Result<
    ImageMap,
    RelayError,
>)
    requires
        relay.wf(),
        forall|url: &String, image: &ImageData| predicate.requires((url, image)),
    ensures
        match relay@ {
            None => without_controller(r),
            Some(c) => r is Ok && r->Ok_0.wf() && (forall|k: Seq<char>| #[trigger]
                r->Ok_0@.contains_key(k) ==> c.images.contains_key(k) && r->Ok_0@[k]
                    == c.images[k]) && (forall|i: int|
                0 <= i < relay.images_held().len() ==> predicate.ensures(
                    (&(#[trigger] relay.images_held()[i]).url, &relay.images_held()[i].image),
                    r->Ok_0@.contains_key(relay.images_held()[i].url@),
                )),
        },
{
    match &relay.controller {
        Some(c) => Ok(c.filter_images(predicate)),
        None => Err(RelayError::NotInitialized),
    }
}

} // verus!
