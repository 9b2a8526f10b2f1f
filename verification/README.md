# label_printer

The core of a desktop tool that prints numbered barcode labels on Zebra
printers. Codes run `Z0000001` to `Z9999999` and then start again at
`Z0000001`; each print request reserves a range of codes, records a print
job, renders the labels as ZPL and sends them to the printer.

- `src/` is the verified library (Verus): the code sequence and its
  reservations, barcode and printer-setting checks, label layout and ZPL
  rendering, print-job states, error texts, and the print workflow as a
  state machine whose actions the caller performs.
- `app/` holds what the library leaves to its caller: the SQLite store,
  the TCP and Windows-spooler printer connections, the millimetre
  (floating point) settings of a printer, and the use cases and commands
  that drive the library against them.
- `tests/` exercises the library on concrete values.
