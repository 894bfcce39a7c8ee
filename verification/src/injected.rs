//! The backend on a descriptor that the application brings.
//!
//! The application may set the descriptor of a card and swap it for another one
//! later; without one, devices are opened directly.

use vstd::prelude::*;

use crate::backend::BackendBuilder;
use crate::clipboard::{text_of, Clipboard, Clipboards};
use crate::eventloop::EventLoopState;
use crate::lease::DeviceError;
use crate::path::{display_path, is_card, lossy_text, names_card};
use crate::renderer::{choice_of, renderer_choice, RendererChoice, RendererFeatures};

verus! {

/// What the event loop hands to its sources: nothing.
#[derive(PartialEq, Eq, Debug)]
pub struct LoopData {}

impl Default for LoopData {
    /// Nothing.
    fn default() -> (data: Self)
        ensures
            data == (LoopData {  }),
    {
        LoopData {  }
    }
}

/// Where the descriptor of a device comes from.
pub enum DeviceSource<'a, F> {
    /// The application has set it.
    Injected(&'a F),
    /// The device is opened for reading and writing.
    OpenDirectly,
}

/// Opens devices, on the descriptor that was set when it was made.
pub struct DeviceAccessor<'a, F> {
    /// The card and its descriptor, if set.
    pub injected: Option<&'a (u8, F)>,
}

impl<'a, F> DeviceAccessor<'a, F> {
    /// Where the descriptor of a device comes from. If the descriptor of a card
    /// is set, only that card is opened.
    pub fn open(&self, device: &[u8]) -> (source: Result<DeviceSource<'a, F>, DeviceError>)
        ensures
            match self.injected {
                None => source matches Ok(DeviceSource::OpenDirectly),
                Some(injected) => match source {
                    Ok(DeviceSource::Injected(fd)) => names_card(device@, injected.0) && *fd
                        == injected.1,
                    Ok(DeviceSource::OpenDirectly) => false,
                    Err(DeviceError::NotTheInjected(path, card)) => {
                        &&& !names_card(device@, injected.0)
                        &&& path@ == lossy_text(device@)
                        &&& card == injected.0
                    },
                    Err(_) => false,
                },
            },
    {
        match self.injected {
            None => Ok(DeviceSource::OpenDirectly),
            Some(injected) => if is_card(device, injected.0) {
                Ok(DeviceSource::Injected(&injected.1))
            } else {
                Err(DeviceError::NotTheInjected(display_path(device), injected.0))
            },
        }
    }
}

/// What is returned for a device that was opened directly. `opened` is what that
/// gave.
pub fn opened_directly<F>(device: &[u8], opened: Result<F, String>) -> (fd: Result<F, DeviceError>)
    ensures
        match opened {
            Ok(opened) => fd == Ok::<F, DeviceError>(opened),
            Err(err) => match fd {
                Err(DeviceError::OpenFailed(path, reason)) => path@ == lossy_text(device@) && reason
                    == err,
                _ => false,
            },
        },
{
    match opened {
        Ok(opened) => Ok(opened),
        Err(err) => Err(DeviceError::OpenFailed(display_path(device), err)),
    }
}

/// A backend on a descriptor that the application brings. `F` is the type of
/// descriptors, `K` that of hooks for the event loop, `S` that of the signal that
/// wakes it up, `G` a graphics interface that may be asked for, `H` the hook for
/// input events.
pub struct Backend<F, K, S, G, H> {
    /// There is a window.
    pub window: bool,
    /// The card and its descriptor, if set.
    pub drm_fd: Option<(u8, F)>,
    /// Nothing is rendered.
    pub suspended: bool,
    /// What to run once the event loop starts.
    pub event_loop_hooks: Vec<K>,
    /// The event loop.
    pub event_loop: EventLoopState<S>,
    /// How the renderer is chosen.
    pub renderer: RendererChoice,
    /// The graphics interface that was asked for.
    pub requested_graphics_api: Option<G>,
    /// The clipboards.
    pub clipboards: Clipboards,
    /// Sees input events before the window does.
    pub libinput_event_hook: Option<H>,
}

impl<F, K, S, G, H> Backend<F, K, S, G, H> {
    /// Builds a backend. `drm_fd` is the card and its descriptor, if the
    /// application has one.
    pub fn build(
        builder: BackendBuilder<G, H>,
        features: RendererFeatures,
        drm_fd: Option<(u8, F)>,
    ) -> (backend: Self)
        ensures
            !backend.window,
            backend.drm_fd == drm_fd,
            !backend.suspended,
            backend.event_loop_hooks@ == Seq::<K>::empty(),
            backend.event_loop.proxy.loop_signal is None,
            !backend.event_loop.proxy.quit_loop,
            backend.event_loop.receiver,
            backend.event_loop.fatal is None,
            backend.renderer == choice_of(text_of(builder.renderer_name), features),
            backend.requested_graphics_api == builder.requested_graphics_api,
            backend.libinput_event_hook == builder.libinput_event_hook,
            forall|which: Clipboard| #[trigger] backend.clipboards.text(which) is None,
    {
        Backend {
            window: false,
            drm_fd,
            suspended: false,
            event_loop_hooks: Vec::new(),
            event_loop: EventLoopState::new(),
            renderer: renderer_choice(builder.renderer_name.as_ref(), features),
            requested_graphics_api: builder.requested_graphics_api,
            clipboards: Clipboards::new(),
            libinput_event_hook: builder.libinput_event_hook,
        }
    }

    /// Opens devices on the descriptor that is set now.
    pub fn device_accessor(&self) -> (accessor: DeviceAccessor<'_, F>)
        ensures
            match self.drm_fd {
                Some(injected) => accessor.injected == Some(&injected),
                None => accessor.injected is None,
            },
    {
        DeviceAccessor { injected: self.drm_fd.as_ref() }
    }

    /// Sets the descriptor of a card, in place of the one before. The display
    /// stack has to be rebuilt on it, with rendering suspended in between.
    pub fn set_drm_fd(&mut self, card_index: u8, fd: F)
        ensures
            *final(self) == (Backend { drm_fd: Some((card_index, fd)), ..*old(self) }),
    {
        self.drm_fd = Some((card_index, fd));
    }

    /// Suspends or resumes rendering.
    pub fn set_suspended(&mut self, suspended: bool)
        ensures
            *final(self) == (Backend { suspended, ..*old(self) }),
    {
        self.suspended = suspended;
    }

    /// How to rebuild the window's display stack: on what this opens. There is
    /// nothing to rebuild before the window is created.
    pub fn rebuild_renderer(&self) -> (accessor: Result<DeviceAccessor<'_, F>, String>)
        ensures
            match accessor {
                Ok(accessor) => self.window && match self.drm_fd {
                    Some(injected) => accessor.injected == Some(&injected),
                    None => accessor.injected is None,
                },
                Err(message) => !self.window && message@
                    == "rebuild_renderer: no window adapter yet"@,
            },
    {
        let accessor = self.device_accessor();
        if !self.window {
            return Err(String::from_str("rebuild_renderer: no window adapter yet"));
        }
        Ok(accessor)
    }

    /// There is a window from now on.
    pub fn window_created(&mut self)
        ensures
            *final(self) == (Backend { window: true, ..*old(self) }),
    {
        self.window = true;
    }

    /// Registers a hook that is run once, when the event loop starts.
    pub fn add_event_loop_hook(&mut self, hook: K)
        ensures
            final(self).event_loop_hooks@ == old(self).event_loop_hooks@.push(hook),
            *final(self) == (Backend {
                event_loop_hooks: final(self).event_loop_hooks,
                ..*old(self)
            }),
    {
        self.event_loop_hooks.push(hook);
    }

    /// The hooks to run now, in the order they were registered in; none of them is
    /// run again.
    pub fn take_event_loop_hooks(&mut self) -> (hooks: Vec<K>)
        ensures
            hooks@ == old(self).event_loop_hooks@,
            final(self).event_loop_hooks@ == Seq::<K>::empty(),
            *final(self) == (Backend {
                event_loop_hooks: final(self).event_loop_hooks,
                ..*old(self)
            }),
    {
        let mut hooks: Vec<K> = Vec::new();
        std::mem::swap(&mut hooks, &mut self.event_loop_hooks);
        hooks
    }
}

} // verus!
