pub mod UnzipError;
pub mod unzip;
