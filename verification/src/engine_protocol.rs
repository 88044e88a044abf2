//! The messages exchanged with the DNIe worker process, protocol version 1.
use vstd::prelude::*;

verus! {

pub const ENGINE_PROTOCOL_VERSION: u8 = 1;

/// The 21 text fields of DG13. A field the chip does not hold is empty.
#[derive(Clone, Debug, PartialEq, Eq)]
pub struct DocumentData {
    pub nombre: String,
    pub primer_apellido: String,
    pub segundo_apellido: String,
    pub apellidos: String,
    pub dni: String,
    pub dni_formateado: String,
    pub fecha_nacimiento: String,
    pub nacionalidad: String,
    pub fecha_caducidad: String,
    pub numero_soporte: String,
    pub sexo: String,
    pub ciudad_nacimiento: String,
    pub provincia_nacimiento: String,
    pub pais_nacimiento: String,
    pub nombres_progenitores: String,
    pub direccion: String,
    pub localidad: String,
    pub provincia: String,
    pub pais: String,
    pub version_dnie: String,
    pub serial_chip: String,
}

impl DocumentData {
    /// The fields in their contract order.
    pub open spec fn fields(self) -> Seq<Seq<char>> {
        seq![
            self.nombre@,
            self.primer_apellido@,
            self.segundo_apellido@,
            self.apellidos@,
            self.dni@,
            self.dni_formateado@,
            self.fecha_nacimiento@,
            self.nacionalidad@,
            self.fecha_caducidad@,
            self.numero_soporte@,
            self.sexo@,
            self.ciudad_nacimiento@,
            self.provincia_nacimiento@,
            self.pais_nacimiento@,
            self.nombres_progenitores@,
            self.direccion@,
            self.localidad@,
            self.provincia@,
            self.pais@,
            self.version_dnie@,
            self.serial_chip@,
        ]
    }
}

impl Default for DocumentData {
    /// A document with every field empty.
    fn default() -> (r: Self)
        ensures
            forall|i: int| 0 <= i < 21 ==> #[trigger] r.fields()[i] == Seq::<char>::empty(),
    {
        DocumentData {
            nombre: String::new(),
            primer_apellido: String::new(),
            segundo_apellido: String::new(),
            apellidos: String::new(),
            dni: String::new(),
            dni_formateado: String::new(),
            fecha_nacimiento: String::new(),
            nacionalidad: String::new(),
            fecha_caducidad: String::new(),
            numero_soporte: String::new(),
            sexo: String::new(),
            ciudad_nacimiento: String::new(),
            provincia_nacimiento: String::new(),
            pais_nacimiento: String::new(),
            nombres_progenitores: String::new(),
            direccion: String::new(),
            localidad: String::new(),
            provincia: String::new(),
            pais: String::new(),
            version_dnie: String::new(),
            serial_chip: String::new(),
        }
    }
}

/// The worker aborts any read whose SOD signature or DG13 hash fails, so a delivered
/// record can only carry this value. It means the DG13 bytes match the hash signed in
/// the SOD and the SOD signature matches the certificate the SOD itself carries. It
/// does not mean that certificate was validated against the CSCA.
#[derive(Clone, Copy, Debug, PartialEq, Eq, Structural)]
pub enum VerificationStatus {
    Verified,
}

impl VerificationStatus {
    pub fn as_str(self) -> (r: &'static str)
        ensures
            r@ == "verified"@,
    {
        "verified"
    }
}

#[derive(Clone, Copy, Debug, PartialEq, Eq, Structural)]
pub struct IntegrityResult {
    pub sod_signature: VerificationStatus,
    pub dg13_hash: VerificationStatus,
}

impl IntegrityResult {
    /// Both checks verified: the only integrity a delivered record carries.
    pub fn verified() -> (r: Self)
        ensures
            r.sod_signature == VerificationStatus::Verified,
            r.dg13_hash == VerificationStatus::Verified,
    {
        IntegrityResult {
            sod_signature: VerificationStatus::Verified,
            dg13_hash: VerificationStatus::Verified,
        }
    }
}

#[derive(Clone, Debug, PartialEq, Eq)]
pub struct EngineError {
    pub code: String,
    pub message: String,
    pub retryable: bool,
}

#[derive(Clone, Debug, PartialEq, Eq)]
pub enum EngineResponse {
    Success { protocol: u8, document: Box<DocumentData>, integrity: IntegrityResult },
    Error { protocol: u8, error: EngineError },
}

#[derive(Clone, Debug, PartialEq, Eq)]
pub struct EngineRequest {
    pub protocol: u8,
    pub command: String,
    pub reader_name: String,
}

impl EngineRequest {
    /// The request to read the card in the reader of that name.
    pub fn read(reader_name: &str) -> (r: Self)
        ensures
            r.protocol == ENGINE_PROTOCOL_VERSION,
            r.command@ == "read"@,
            r.reader_name@ == reader_name@,
    {
        EngineRequest {
            protocol: ENGINE_PROTOCOL_VERSION,
            command: "read".to_owned(),
            reader_name: reader_name.to_owned(),
        }
    }
}

} // verus!
