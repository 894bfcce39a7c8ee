//! The backend on a session with the controller.

use vstd::prelude::*;

use crate::clipboard::{text_of, Clipboard, Clipboards};
use crate::eventloop::EventLoopState;
use crate::lease::{LeaseState, SharedState};
use crate::renderer::{choice_of, renderer_choice, RendererChoice, RendererFeatures};
use crate::sgc::{sgc_err, Resource, SgcSession};

verus! {

/// What a backend is built from. `G` is a graphics interface that the
/// application may ask for, `H` its hook for input events.
pub struct BackendBuilder<G, H> {
    /// The renderer that was asked for by name.
    pub renderer_name: Option<String>,
    /// The graphics interface that was asked for.
    pub requested_graphics_api: Option<G>,
    /// Sees input events before the window does.
    pub libinput_event_hook: Option<H>,
}

impl<G, H> Default for BackendBuilder<G, H> {
    /// Nothing is asked for.
    fn default() -> (builder: Self)
        ensures
            builder.renderer_name is None,
            builder.requested_graphics_api is None,
            builder.libinput_event_hook is None,
    {
        BackendBuilder {
            renderer_name: None,
            requested_graphics_api: None,
            libinput_event_hook: None,
        }
    }
}

impl<G, H> BackendBuilder<G, H> {
    /// Asks for a renderer by name.
    pub fn with_renderer_name(self, name: String) -> (builder: Self)
        ensures
            builder == (BackendBuilder { renderer_name: Some(name), ..self }),
    {
        BackendBuilder {
            renderer_name: Some(name),
            requested_graphics_api: self.requested_graphics_api,
            libinput_event_hook: self.libinput_event_hook,
        }
    }

    /// Asks for a graphics interface.
    pub fn request_graphics_api(self, graphics_api: G) -> (builder: Self)
        ensures
            builder == (BackendBuilder { requested_graphics_api: Some(graphics_api), ..self }),
    {
        BackendBuilder {
            renderer_name: self.renderer_name,
            requested_graphics_api: Some(graphics_api),
            libinput_event_hook: self.libinput_event_hook,
        }
    }

    /// Has input events shown to a hook first.
    pub fn with_libinput_event_hook(self, event_hook: H) -> (builder: Self)
        ensures
            builder == (BackendBuilder { libinput_event_hook: Some(event_hook), ..self }),
    {
        BackendBuilder {
            renderer_name: self.renderer_name,
            requested_graphics_api: self.requested_graphics_api,
            libinput_event_hook: Some(event_hook),
        }
    }

    /// Builds the backend, as [`Backend::build`] does.
    pub fn build<F, S>(
        self,
        features: RendererFeatures,
        inputs: bool,
        session: Result<(SgcSession, Result<F, String>), String>,
    ) -> (backend: Result<Backend<F, S, G, H>, String>)
        ensures
            is_built(self, features, inputs, session, backend),
    {
        Backend::build(self, features, inputs, session)
    }
}

/// A backend on a session with the controller. `F` is the type of descriptors,
/// `S` that of the signal that wakes the event loop up.
pub struct Backend<F, S, G, H> {
    /// What the event loop and the window share.
    pub shared: SharedState<F>,
    /// The session.
    pub session: SgcSession,
    /// The event loop.
    pub event_loop: EventLoopState<S>,
    /// How the renderer is chosen.
    pub renderer: RendererChoice,
    /// The graphics interface that was asked for.
    pub requested_graphics_api: Option<G>,
    /// The clipboards.
    pub clipboards: Clipboards,
    /// Sees input events before the window does.
    pub libinput_event_hook: Option<H>,
}

/// What [`Backend::build`] makes of a builder and a session: a backend that
/// renders on the lease, or the error that kept it from one.
pub open spec fn is_built<F, S, G, H>(
    builder: BackendBuilder<G, H>,
    features: RendererFeatures,
    inputs: bool,
    session: Result<(SgcSession, Result<F, String>), String>,
    backend: Result<Backend<F, S, G, H>, String>,
) -> bool {
    match session {
        Err(err) => backend == Err::<Backend<F, S, G, H>, String>(err),
        Ok((_, Err(err))) => backend matches Err(message) && message@ == "sgc: "@ + err@,
        Ok((session, Ok(fd))) => backend matches Ok(backend) && {
            &&& backend.shared@ == (LeaseState {
                card: session.card,
                drm_fd: Some(fd),
                suspended: false,
                window: false,
                inputs,
            })
            &&& backend.shared@.valid()
            &&& backend.session == session
            &&& backend.event_loop.proxy.loop_signal is None
            &&& !backend.event_loop.proxy.quit_loop
            &&& backend.event_loop.receiver
            &&& backend.event_loop.fatal is None
            &&& backend.renderer == choice_of(text_of(builder.renderer_name), features)
            &&& backend.requested_graphics_api == builder.requested_graphics_api
            &&& backend.libinput_event_hook == builder.libinput_event_hook
            &&& forall|which: Clipboard| #[trigger] backend.clipboards.text(which) is None
        },
    }
}

impl<F, S, G, H> Backend<F, S, G, H> {
    /// Builds a backend. `session` is the session with the descriptor of its
    /// lease, which may not be had, or why there is no session. There is no
    /// fallback: without the lease there is no backend.
    pub fn build(
        builder: BackendBuilder<G, H>,
        features: RendererFeatures,
        inputs: bool,
        session: Result<(SgcSession, Result<F, String>), String>,
    ) -> (backend: Result<Self, String>)
        ensures
            is_built(builder, features, inputs, session, backend),
    {
        let renderer = renderer_choice(builder.renderer_name.as_ref(), features);
        let (session, fd): (SgcSession, F) = match session {
            Ok((session, Ok(fd))) => (session, fd),
            Ok((_, Err(err))) => {
                return Err(sgc_err(err.as_str()));
            },
            Err(err) => {
                return Err(err);
            },
        };
        Ok(
            Backend {
                shared: SharedState::new(session.card, fd, inputs),
                session,
                event_loop: EventLoopState::new(),
                renderer,
                requested_graphics_api: builder.requested_graphics_api,
                clipboards: Clipboards::new(),
                libinput_event_hook: builder.libinput_event_hook,
            },
        )
    }
}

/// A backend renders on the card of its session's lease and on no other.
pub proof fn a_backend_renders_on_its_lease<F, S, G, H>(
    builder: BackendBuilder<G, H>,
    features: RendererFeatures,
    inputs: bool,
    session: SgcSession,
    fd: F,
    backend: Backend<F, S, G, H>,
)
    requires
        session.valid(),
        is_built(builder, features, inputs, Ok((session, Ok(fd))), Ok(backend)),
    ensures
        backend.session.resource == (Resource::Drm { card: backend.shared@.card }),
        backend.shared@.drm_fd == Some(fd),
{
}

/// A backend is what was asked for: it has the session and its lease, renders at
/// once and without a window yet, on the renderer that the name asks for, and keeps
/// the graphics interface and the hook of its builder. Its loop has not run and its
/// clipboards are empty.
pub proof fn a_backend_is_what_was_asked_for<F, S, G, H>(
    builder: BackendBuilder<G, H>,
    features: RendererFeatures,
    inputs: bool,
    session: SgcSession,
    fd: F,
    built: Result<Backend<F, S, G, H>, String>,
)
    requires
        is_built(builder, features, inputs, Ok((session, Ok(fd))), built),
    ensures
        built matches Ok(backend) && {
            &&& backend.session == session
            &&& backend.shared@.card == session.card
            &&& backend.shared@.drm_fd == Some(fd)
            &&& !backend.shared@.suspended
            &&& !backend.shared@.window
            &&& backend.shared@.inputs == inputs
            &&& backend.renderer == choice_of(
                match builder.renderer_name {
                    Some(name) => Some(name@),
                    None => None,
                },
                features,
            )
            &&& backend.requested_graphics_api == builder.requested_graphics_api
            &&& backend.libinput_event_hook == builder.libinput_event_hook
            &&& backend.event_loop.proxy.loop_signal is None
            &&& !backend.event_loop.proxy.quit_loop
            &&& backend.event_loop.receiver
            &&& backend.event_loop.fatal is None
            &&& backend.clipboards.text(Clipboard::DefaultClipboard) is None
            &&& backend.clipboards.text(Clipboard::SelectionClipboard) is None
        },
{
}

/// Without a session, or without the descriptor of its lease, there is no backend,
/// and the error says why.
pub proof fn without_the_lease_there_is_no_backend<F, S, G, H>(
    builder: BackendBuilder<G, H>,
    features: RendererFeatures,
    inputs: bool,
    session: Result<(SgcSession, Result<F, String>), String>,
    built: Result<Backend<F, S, G, H>, String>,
)
    requires
        is_built(builder, features, inputs, session, built),
    ensures
        session matches Err(err) ==> (built matches Err(message) && message == err),
        session matches Ok((_, Err(err))) ==> (built matches Err(message) && message@ == "sgc: "@
            + err@),
        built is Ok <==> (session matches Ok((_, fd)) && fd is Ok),
{
}

} // verus!
