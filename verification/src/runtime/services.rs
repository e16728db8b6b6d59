use vstd::prelude::*;

verus! {

/// The long-running services that the runtime supervises.
#[derive(Clone, Copy, Debug, PartialEq, Eq, Structural)]
pub enum ServiceKind {
    Proxy,
    ControlRpc,
    CertificateDownload,
    Logger,
    BodyPumps,
    Decoder,
    RequestSearch,
    SettingsTransactions,
}

/// A service is fatal unless it is the certificate download server or the logger.
pub open spec fn service_is_fatal(kind: ServiceKind) -> bool {
    !(kind == ServiceKind::CertificateDownload || kind == ServiceKind::Logger)
}

impl ServiceKind {
    /// Whether the runtime must stop when this service ends.
    pub fn is_fatal(self) -> (fatal: bool)
        ensures
            fatal == service_is_fatal(self),
    {
        !matches!(self, ServiceKind::CertificateDownload | ServiceKind::Logger)
    }
}

/// The supervisor policy for a finished service.
pub fn is_fatal_service(kind: ServiceKind) -> (fatal: bool)
    ensures
        fatal == service_is_fatal(kind),
{
    kind.is_fatal()
}

} // verus!
